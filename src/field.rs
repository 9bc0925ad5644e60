use vstd::prelude::*;

verus! {

/// A cell that knows its own position in the field it belongs to.
#[derive(Clone, Copy, Debug, PartialEq, Eq, Structural)]
pub struct Cell {
    pub alive: bool,
    x: usize,
    y: usize,
}

impl Cell {
    /// Whether the cell is alive.
    pub closed spec fn spec_alive(&self) -> bool {
        self.alive
    }

    /// The cell's column.
    pub closed spec fn spec_x(&self) -> nat {
        self.x as nat
    }

    /// The cell's row.
    pub closed spec fn spec_y(&self) -> nat {
        self.y as nat
    }

    /// A dead cell at `(x, y)`.
    pub fn new(x: usize, y: usize) -> (r: Cell)
        ensures
            !r.spec_alive(),
            r.spec_x() == x,
            r.spec_y() == y,
    {
        Cell { alive: false, x, y }
    }

    /// The cell's position, column first.
    pub fn get_pos(&self) -> (r: (usize, usize))
        ensures
            r.0 == self.spec_x(),
            r.1 == self.spec_y(),
    {
        (self.x, self.y)
    }
}

/// A playfield of cells stored column by column: `matrix[x][y]` is the cell at
/// `(x, y)`.
pub struct Field {
    size: (usize, usize),
    matrix: Vec<Vec<Cell>>,
}

impl Field {
    pub closed spec fn spec_width(&self) -> nat {
        self.size.0 as nat
    }

    pub closed spec fn spec_height(&self) -> nat {
        self.size.1 as nat
    }

    /// The columns of cells.
    pub closed spec fn columns(&self) -> Seq<Seq<Cell>> {
        self.matrix@.map_values(|c: Vec<Cell>| c@)
    }

    /// `width` columns of `height` cells, each cell holding its own position.
    pub open spec fn wf(&self) -> bool {
        &&& self.columns().len() == self.spec_width()
        &&& forall|x: int|
            0 <= x < self.spec_width() ==> (#[trigger] self.columns()[x]).len() == self.spec_height()
        &&& forall|x: int, y: int|
            0 <= x < self.spec_width() && 0 <= y < self.spec_height() ==> {
                &&& (#[trigger] self.columns()[x][y]).spec_x() == x
                &&& self.columns()[x][y].spec_y() == y
            }
    }

    /// A field of the given size whose cells are all dead.
    pub fn new(width: usize, height: usize) -> (r: Field)
        ensures
            r.wf(),
            r.spec_width() == width,
            r.spec_height() == height,
            forall|x: int, y: int|
                0 <= x < width && 0 <= y < height ==> !(#[trigger] r.columns()[x][y]).spec_alive(),
    {
        let mut matrix: Vec<Vec<Cell>> = Vec::new();
        let mut x: usize = 0;
        while x < width
            invariant
                x <= width,
                matrix@.len() == x,
                forall|i: int| 0 <= i < x ==> (#[trigger] matrix@[i])@.len() == height,
                forall|i: int, j: int|
                    0 <= i < x && 0 <= j < height ==> (#[trigger] matrix@[i]@[j]) == (Cell {
                        alive: false,
                        x: i as usize,
                        y: j as usize,
                    }),
            decreases width - x,
        {
            let mut column: Vec<Cell> = Vec::new();
            let mut y: usize = 0;
            while y < height
                invariant
                    y <= height,
                    column@.len() == y,
                    forall|j: int|
                        0 <= j < y ==> (#[trigger] column@[j]) == (Cell {
                            alive: false,
                            x: x,
                            y: j as usize,
                        }),
                decreases height - y,
            {
                column.push(Cell::new(x, y));
                y = y + 1;
            }
            matrix.push(column);
            x = x + 1;
        }
        Field { size: (width, height), matrix }
    }

    /// Number of columns.
    pub fn get_width(&self) -> (r: usize)
        ensures
            r == self.spec_width(),
    {
        self.size.0
    }

    /// Number of rows.
    pub fn get_height(&self) -> (r: usize)
        ensures
            r == self.spec_height(),
    {
        self.size.1
    }

    /// A copy of the cells, column by column.
    pub fn get_mat(&self) -> (r: Vec<Vec<Cell>>)
        ensures
            r@.map_values(|c: Vec<Cell>| c@) == self.columns(),
    {
        let n = self.matrix.len();
        let mut out: Vec<Vec<Cell>> = Vec::new();
        let mut x: usize = 0;
        while x < n
            invariant
                x <= n,
                n == self.matrix@.len(),
                out@.len() == x,
                forall|i: int| 0 <= i < x ==> (#[trigger] out@[i])@ == self.matrix@[i]@,
            decreases n - x,
        {
            let column = &self.matrix[x];
            let m = column.len();
            let mut copy: Vec<Cell> = Vec::new();
            let mut y: usize = 0;
            while y < m
                invariant
                    y <= m,
                    m == column@.len(),
                    copy@ == column@.subrange(0, y as int),
                decreases m - y,
            {
                copy.push(column[y]);
                y = y + 1;
                assert(copy@ =~= column@.subrange(0, y as int));
            }
            assert(copy@ =~= column@);
            out.push(copy);
            x = x + 1;
        }
        assert(out@.map_values(|c: Vec<Cell>| c@) =~= self.columns());
        out
    }
}

} // verus!
