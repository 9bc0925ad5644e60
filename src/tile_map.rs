use vstd::prelude::*;
use crate::coordinates::Coordinates;
use crate::random::random_below;
use crate::tile::Tile;

verus! {

/// Flat position of column `x`, row `y` in a row-major buffer `width` cells wide.
pub open spec fn flat_index(width: int, x: int, y: int) -> int {
    y * width + x
}

/// Every in-range position has a slot inside the buffer, and distinct positions
/// have distinct slots.
pub proof fn lemma_flat_index(width: int, height: int, x: int, y: int, x2: int, y2: int)
    requires
        0 <= x < width,
        0 <= y < height,
        0 <= x2 < width,
        0 <= y2 < height,
    ensures
        0 <= flat_index(width, x, y) < width * height,
        (x != x2 || y != y2) ==> flat_index(width, x, y) != flat_index(width, x2, y2),
{
    assert(0 <= y * width + x < width * height) by (nonlinear_arith)
        requires
            0 <= x < width,
            0 <= y < height,
    ;
    if y < y2 {
        assert(y * width + x < y2 * width + x2) by (nonlinear_arith)
            requires
                0 <= x < width,
                0 <= x2,
                y < y2,
        ;
    } else if y2 < y {
        assert(y2 * width + x2 < y * width + x) by (nonlinear_arith)
            requires
                0 <= x2 < width,
                0 <= x,
                y2 < y,
        ;
    }
}

/// Number of live tiles in `s`.
pub open spec fn live_count(s: Seq<Tile>) -> nat
    decreases s.len(),
{
    if s.len() == 0 {
        0
    } else {
        live_count(s.drop_last()) + if s.last() is Alive {
            1nat
        } else {
            0nat
        }
    }
}

/// Number of dead tiles in `s`.
pub open spec fn dead_count(s: Seq<Tile>) -> int {
    s.len() - live_count(s)
}

pub proof fn lemma_live_count_bound(s: Seq<Tile>)
    ensures
        live_count(s) <= s.len(),
    decreases s.len(),
{
    if s.len() > 0 {
        lemma_live_count_bound(s.drop_last());
    }
}

/// Bringing one dead tile to life adds one to the live count.
pub proof fn lemma_live_count_revive(s: Seq<Tile>, i: int)
    requires
        0 <= i < s.len(),
        s[i] is Dead,
    ensures
        live_count(s.update(i, Tile::Alive)) == live_count(s) + 1,
    decreases s.len(),
{
    let u = s.update(i, Tile::Alive);
    if i == s.len() - 1 {
        assert(u.drop_last() =~= s.drop_last());
    } else {
        assert(u.drop_last() =~= s.drop_last().update(i, Tile::Alive));
        lemma_live_count_revive(s.drop_last(), i);
    }
}

/// The prefix one longer adds the next tile to the count.
proof fn lemma_live_count_prefix(s: Seq<Tile>, i: int)
    requires
        0 <= i < s.len(),
    ensures
        live_count(s.take(i + 1)) == live_count(s.take(i)) + if s[i] is Alive {
            1nat
        } else {
            0nat
        },
{
    assert(s.take(i + 1).drop_last() =~= s.take(i));
}

/// Why seeding was refused.
#[derive(Clone, Copy, Debug, PartialEq, Eq, Structural)]
pub enum SeedError {
    /// More live cells were asked for than the grid has dead cells to give.
    InvalidSeedCount,
}

/// What seeding `before` with `n` live cells produces: an error, with nothing
/// changed, exactly when `before` has fewer than `n` dead cells; otherwise a grid
/// of the same size in which every live cell of `before` is still alive and `n`
/// more cells live.
pub open spec fn seed_outcome(before: TileMap, after: TileMap, n: int, r: Result<(), SeedError>) -> bool {
    &&& after.wf()
    &&& after.spec_width() == before.spec_width()
    &&& after.spec_height() == before.spec_height()
    &&& (r is Err <==> n > before.dead_cells())
    &&& (r is Err ==> r == Err::<(), SeedError>(SeedError::InvalidSeedCount) && after == before)
    &&& (r is Ok ==> after.live_cells() == before.live_cells() + n)
    &&& (r is Ok ==> forall|i: int|
        0 <= i < before.cells().len() && #[trigger] before.cells()[i] is Alive
            ==> after.cells()[i] is Alive)
}

/// A sequence of dead tiles has no live one.
pub proof fn lemma_live_count_all_dead(s: Seq<Tile>)
    requires
        forall|i: int| 0 <= i < s.len() ==> #[trigger] s[i] is Dead,
    ensures
        live_count(s) == 0,
    decreases s.len(),
{
    if s.len() > 0 {
        lemma_live_count_all_dead(s.drop_last());
    }
}

/// Seeding an all-dead grid with `n <= width * height` succeeds and leaves
/// exactly `n` cells alive and all the others dead.
pub proof fn lemma_seed_exact(before: TileMap, after: TileMap, n: int, r: Result<(), SeedError>)
    requires
        before.wf(),
        forall|i: int| 0 <= i < before.cells().len() ==> #[trigger] before.cells()[i] is Dead,
        0 <= n <= before.spec_width() * before.spec_height(),
        seed_outcome(before, after, n, r),
    ensures
        r is Ok,
        after.live_cells() == n,
        after.dead_cells() == before.spec_width() * before.spec_height() - n,
{
    lemma_live_count_all_dead(before.cells());
}

/// Seeding with more live cells than the grid has positions fails with
/// `InvalidSeedCount` and changes nothing.
pub proof fn lemma_seed_too_many(before: TileMap, after: TileMap, n: int, r: Result<(), SeedError>)
    requires
        before.wf(),
        n > before.spec_width() * before.spec_height(),
        seed_outcome(before, after, n, r),
    ensures
        r == Err::<(), SeedError>(SeedError::InvalidSeedCount),
        after == before,
{
    lemma_live_count_bound(before.cells());
}

/// A position that comes earlier in row-major order has an earlier slot.
pub proof fn lemma_flat_index_before(width: int, x: int, y: int, x2: int, y2: int)
    requires
        0 <= x < width,
        0 <= x2 < width,
        0 <= y,
        y < y2 || (y == y2 && x < x2),
    ensures
        flat_index(width, x, y) < flat_index(width, x2, y2),
{
    if y < y2 {
        assert(y * width + x < y2 * width + x2) by (nonlinear_arith)
            requires
                0 <= x < width,
                0 <= x2,
                y < y2,
        ;
    }
}

/// A rectangular grid of tiles, stored row by row.
#[derive(Clone, Debug)]
pub struct TileMap {
    height: u16,
    width: u16,
    map: Vec<Tile>,
}

impl TileMap {
    pub closed spec fn spec_width(&self) -> int {
        self.width as int
    }

    pub closed spec fn spec_height(&self) -> int {
        self.height as int
    }

    /// The cells, row after row.
    pub closed spec fn cells(&self) -> Seq<Tile> {
        self.map@
    }

    /// Both sides fit in a `u16`, so no position with a coordinate of `u16::MAX`
    /// lies on the grid.
    pub proof fn lemma_size_fits(&self)
        ensures
            0 <= self.spec_width() <= u16::MAX,
            0 <= self.spec_height() <= u16::MAX,
    {
    }

    /// The buffer holds exactly one tile per position.
    pub open spec fn wf(&self) -> bool {
        self.cells().len() == self.spec_width() * self.spec_height()
    }

    pub open spec fn in_bounds(&self, x: int, y: int) -> bool {
        0 <= x < self.spec_width() && 0 <= y < self.spec_height()
    }

    /// The tile at an in-range position.
    pub open spec fn tile(&self, x: int, y: int) -> Tile {
        self.cells()[flat_index(self.spec_width(), x, y)]
    }

    /// Whether `(x, y)` is a live cell; positions off the grid are dead.
    pub open spec fn alive(&self, x: int, y: int) -> bool {
        self.in_bounds(x, y) && self.tile(x, y) is Alive
    }

    /// Generates a map of the given size whose cells are all dead. A size of zero
    /// in either direction gives a grid with no cells.
    pub fn empty(width: u16, height: u16) -> (r: TileMap)
        ensures
            r.wf(),
            r.spec_width() == width,
            r.spec_height() == height,
            forall|i: int| 0 <= i < r.cells().len() ==> r.cells()[i] is Dead,
    {
        assert(width as int * height as int <= 65535 * 65535) by (nonlinear_arith)
            requires
                width <= 65535,
                height <= 65535,
        ;
        let n: usize = width as usize * height as usize;
        let mut map: Vec<Tile> = Vec::with_capacity(n);
        let mut i: usize = 0;
        while i < n
            invariant
                i <= n,
                map@.len() == i,
                forall|j: int| 0 <= j < i ==> map@[j] is Dead,
            decreases n - i,
        {
            map.push(Tile::Dead);
            i = i + 1;
        }
        TileMap { height, width, map }
    }

    /// A grid over the given buffer, row after row.
    pub(crate) fn from_cells(width: u16, height: u16, map: Vec<Tile>) -> (r: TileMap)
        requires
            map@.len() == width * height,
        ensures
            r.wf(),
            r.spec_width() == width,
            r.spec_height() == height,
            r.cells() == map@,
    {
        TileMap { height, width, map }
    }

    /// Width of the grid, in cells.
    pub fn width(&self) -> (r: u16)
        ensures
            r == self.spec_width(),
    {
        self.width
    }

    /// Height of the grid, in cells.
    pub fn height(&self) -> (r: u16)
        ensures
            r == self.spec_height(),
    {
        self.height
    }

    fn index_of(&self, x: u16, y: u16) -> (r: usize)
        requires
            self.wf(),
            self.in_bounds(x as int, y as int),
        ensures
            r == flat_index(self.spec_width(), x as int, y as int),
            r < self.cells().len(),
    {
        proof {
            lemma_flat_index(self.width as int, self.height as int, x as int, y as int, x as int, y as int);
            assert(y as int * self.width as int <= y as int * self.width as int + x as int);
            assert(self.width as int * self.height as int <= 65535 * 65535) by (nonlinear_arith)
                requires
                    self.width <= 65535,
                    self.height <= 65535,
            ;
        }
        let row: usize = y as usize * self.width as usize;
        row + x as usize
    }

    /// Number of live cells of the grid.
    pub open spec fn live_cells(&self) -> nat {
        live_count(self.cells())
    }

    /// Number of dead cells of the grid.
    pub open spec fn dead_cells(&self) -> int {
        dead_count(self.cells())
    }

    /// Counts the dead cells.
    pub fn count_dead(&self) -> (r: usize)
        ensures
            r == self.dead_cells(),
    {
        let n = self.map.len();
        let mut i: usize = 0;
        let mut dead: usize = 0;
        while i < n
            invariant
                n == self.map@.len(),
                i <= n,
                dead == dead_count(self.map@.take(i as int)),
            decreases n - i,
        {
            proof {
                lemma_live_count_prefix(self.map@, i as int);
                lemma_live_count_bound(self.map@.take(i as int));
            }
            if !self.map[i].is_alive() {
                dead = dead + 1;
            }
            i = i + 1;
        }
        proof {
            assert(self.map@.take(n as int) =~= self.map@);
        }
        dead
    }

    /// Slot of the dead cell that comes `k`-th (from zero) in row-major order.
    fn nth_dead(&self, k: usize) -> (r: usize)
        requires
            k < self.dead_cells(),
        ensures
            r < self.cells().len(),
            self.cells()[r as int] is Dead,
    {
        let n = self.map.len();
        let mut i: usize = 0;
        let mut seen: usize = 0;
        while i < n
            invariant
                n == self.map@.len(),
                i <= n,
                seen == dead_count(self.map@.take(i as int)),
                seen <= k,
            decreases n - i,
        {
            proof {
                lemma_live_count_prefix(self.map@, i as int);
                lemma_live_count_bound(self.map@.take(i as int));
            }
            if !self.map[i].is_alive() {
                if seen == k {
                    return i;
                }
                seen = seen + 1;
            }
            i = i + 1;
        }
        proof {
            assert(self.map@.take(n as int) =~= self.map@);
            assert(false);
        }
        0
    }

    /// Brings `alive_init` dead cells to life, chosen at random, and leaves every
    /// other cell as it was. Each placement picks uniformly among the cells that
    /// are still dead, so the chosen set is uniform and the work is bounded.
    /// Fails, changing nothing, when the grid has fewer than `alive_init` dead
    /// cells; on a grid that starts empty that is when `alive_init` exceeds
    /// `width * height`.
    pub fn set_initial_conditions(&mut self, alive_init: u16) -> (r: Result<(), SeedError>)
        requires
            old(self).wf(),
        ensures
            seed_outcome(*old(self), *final(self), alive_init as int, r),
    {
        let mut dead = self.count_dead();
        if alive_init as usize > dead {
            return Err(SeedError::InvalidSeedCount);
        }
        let ghost start = *self;
        let mut remaining: u16 = alive_init;
        while remaining > 0
            invariant
                self.wf(),
                self.width == start.width,
                self.height == start.height,
                dead == self.dead_cells(),
                remaining <= dead,
                self.live_cells() + remaining == start.live_cells() + alive_init,
                self.map@.len() == start.map@.len(),
                forall|i: int|
                    0 <= i < start.map@.len() && #[trigger] start.map@[i] is Alive
                        ==> self.map@[i] is Alive,
            decreases remaining,
        {
            let k = random_below(dead);
            let i = self.nth_dead(k);
            proof {
                lemma_live_count_revive(self.map@, i as int);
            }
            self.map.set(i, Tile::Alive);
            remaining = remaining - 1;
            dead = dead - 1;
        }
        Ok(())
    }

    /// An all-dead grid of the given size with `alive_count` cells brought to
    /// life at random; refused when the grid has fewer positions than that.
    pub fn seeded(width: u16, height: u16, alive_count: u16) -> (r: Result<TileMap, SeedError>)
        ensures
            r is Err <==> alive_count > width * height,
            r is Err ==> r == Err::<TileMap, SeedError>(SeedError::InvalidSeedCount),
            r is Ok ==> {
                &&& r->Ok_0.wf()
                &&& r->Ok_0.spec_width() == width
                &&& r->Ok_0.spec_height() == height
                &&& r->Ok_0.live_cells() == alive_count
            },
    {
        let mut map = TileMap::empty(width, height);
        let ghost before = map;
        let outcome = map.set_initial_conditions(alive_count);
        proof {
            if alive_count <= width * height {
                lemma_seed_exact(before, map, alive_count as int, outcome);
            } else {
                lemma_seed_too_many(before, map, alive_count as int, outcome);
            }
        }
        match outcome {
            Ok(()) => Ok(map),
            Err(e) => Err(e),
        }
    }

    /// Whether the cell at `coordinates` is alive; a position off the grid is dead.
    pub fn is_alive_at(&self, coordinates: Coordinates) -> (r: bool)
        requires
            self.wf(),
        ensures
            r == self.alive(coordinates.x as int, coordinates.y as int),
    {
        if coordinates.x >= self.width || coordinates.y >= self.height {
            return false;
        }
        let i = self.index_of(coordinates.x, coordinates.y);
        self.map[i].is_alive()
    }

    /// The tile at an in-range position.
    pub fn get(&self, x: u16, y: u16) -> (r: Tile)
        requires
            self.wf(),
            self.in_bounds(x as int, y as int),
        ensures
            r == self.tile(x as int, y as int),
    {
        let i = self.index_of(x, y);
        self.map[i]
    }

    /// Overwrites the tile at an in-range position and nothing else.
    pub fn set(&mut self, x: u16, y: u16, tile: Tile)
        requires
            old(self).wf(),
            old(self).in_bounds(x as int, y as int),
        ensures
            final(self).wf(),
            final(self).spec_width() == old(self).spec_width(),
            final(self).spec_height() == old(self).spec_height(),
            final(self).tile(x as int, y as int) == tile,
            forall|x2: int, y2: int|
                #![trigger final(self).tile(x2, y2)]
                old(self).in_bounds(x2, y2) && (x2 != x || y2 != y)
                    ==> final(self).tile(x2, y2) == old(self).tile(x2, y2),
    {
        let i = self.index_of(x, y);
        self.map.set(i, tile);
        proof {
            assert(self.map@ == old(self).map@.update(i as int, tile));
            assert forall|x2: int, y2: int|
                #![trigger self.tile(x2, y2)]
                old(self).in_bounds(x2, y2) && (x2 != x || y2 != y)
                    implies self.tile(x2, y2) == old(self).tile(x2, y2) by {
                lemma_flat_index(self.width as int, self.height as int, x as int, y as int, x2, y2);
                lemma_flat_index(self.width as int, self.height as int, x2, y2, x2, y2);
            }
        }
    }
}

} // verus!
