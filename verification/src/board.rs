//! The game board: a square grid of cross points plus a neighbor table,
//! precomputed once at construction, that resolves the eight compass
//! directions to adjacent flat indices.

use vstd::prelude::*;
use vstd::arithmetic::div_mod::lemma_fundamental_div_mod;

use crate::cross_point::{ChessType, CrossPoint};
use crate::utils::{Error, ErrorKind};

verus! {

/// The eight compass directions used for adjacency.
#[derive(Copy, Clone, PartialEq, Eq, Debug, Structural)]
pub enum MoveDirection {
    MdUp,
    MdDown,
    MdLeft,
    MdRight,
    MdUpLeft,
    MdUpRight,
    MdDownLeft,
    MdDownRight,
}

/// Row shift of one step in the given direction.
pub open spec fn row_delta(md: MoveDirection) -> int {
    match md {
        MoveDirection::MdUp => -1,
        MoveDirection::MdDown => 1,
        MoveDirection::MdLeft => 0,
        MoveDirection::MdRight => 0,
        MoveDirection::MdUpLeft => -1,
        MoveDirection::MdUpRight => -1,
        MoveDirection::MdDownLeft => 1,
        MoveDirection::MdDownRight => 1,
    }
}

/// Column shift of one step in the given direction.
pub open spec fn col_delta(md: MoveDirection) -> int {
    match md {
        MoveDirection::MdUp => 0,
        MoveDirection::MdDown => 0,
        MoveDirection::MdLeft => -1,
        MoveDirection::MdRight => 1,
        MoveDirection::MdUpLeft => -1,
        MoveDirection::MdUpRight => 1,
        MoveDirection::MdDownLeft => -1,
        MoveDirection::MdDownRight => 1,
    }
}

/// The index adjacent to `index` one step in direction `md`, on a board of
/// side length `size`; `None` when that step would leave the grid.
pub open spec fn neighbor_index(size: int, index: int, md: MoveDirection) -> Option<int> {
    let row = index / size + row_delta(md);
    let col = index % size + col_delta(md);
    if 0 <= row < size && 0 <= col < size {
        Some(row * size + col)
    } else {
        None
    }
}

/// A zero-based (row, column) pair on a board of some side length.
#[derive(Copy, Clone, PartialEq, Eq, Debug, Structural)]
pub struct Coord {
    pub row: usize,
    pub col: usize,
}

impl Coord {
    /// The coordinate of a flat index on a board of side length `size`.
    pub fn from_index(index: usize, size: usize) -> (c: Coord)
        requires
            size > 0,
        ensures
            c.row == index as int / size as int,
            c.col == index as int % size as int,
            index < size * size ==> c.row < size && c.col < size,
    {
        let row = index / size;
        let col = index % size;
        proof {
            if index < size * size {
                lemma_fundamental_div_mod(index as int, size as int);
                assert(row < size) by (nonlinear_arith)
                    requires
                        index as int == size as int * (row as int) + (col as int),
                        0 <= (col as int) && (col as int) < (size as int),
                        (index as int) < (size as int) * (size as int),
                        size as int > 0,
                {}
            }
        }
        Coord { row, col }
    }

    /// The flat index of a valid coordinate: `row * size + col`.
    pub fn to_index(&self, size: usize) -> (index: usize)
        requires
            self.row < size,
            self.col < size,
            size * size <= usize::MAX,
        ensures
            index == self.row * size + self.col,
            index < size * size,
    {
        proof {
            assert((self.row as int) * (size as int) + (self.col as int)
                < (size as int) * (size as int)) by (nonlinear_arith)
                requires
                    (self.row as int) < (size as int),
                    (self.col as int) < (size as int),
                    0 <= self.row as int,
                    0 <= self.col as int,
            {}
        }
        self.row * size + self.col
    }
}

/// One recorded move: where a piece was placed and its color. The driving
/// session layer uses it to keep a move history; the core itself does not.
#[derive(Copy, Clone, Debug)]
pub struct Step {
    pub coord: Coord,
    pub chess: ChessType,
}

/// The neighbor entries of one cross point: for each direction, the adjacent
/// in-bounds index, or nothing where that step would leave the grid.
#[derive(Copy, Clone, Debug)]
pub struct NeighborIndexMap {
    up: Option<usize>,
    down: Option<usize>,
    left: Option<usize>,
    right: Option<usize>,
    up_left: Option<usize>,
    up_right: Option<usize>,
    down_left: Option<usize>,
    down_right: Option<usize>,
}

impl NeighborIndexMap {
    /// The entry stored for the given direction.
    pub closed spec fn spec_get(self, md: MoveDirection) -> Option<usize> {
        match md {
            MoveDirection::MdUp => self.up,
            MoveDirection::MdDown => self.down,
            MoveDirection::MdLeft => self.left,
            MoveDirection::MdRight => self.right,
            MoveDirection::MdUpLeft => self.up_left,
            MoveDirection::MdUpRight => self.up_right,
            MoveDirection::MdDownLeft => self.down_left,
            MoveDirection::MdDownRight => self.down_right,
        }
    }

    /// A map with no entry in any direction.
    pub fn new() -> (m: NeighborIndexMap)
        ensures
            forall|md: MoveDirection| m.spec_get(md) is None,
    {
        NeighborIndexMap {
            up: None,
            down: None,
            left: None,
            right: None,
            up_left: None,
            up_right: None,
            down_left: None,
            down_right: None,
        }
    }

    /// Records `index` as the neighbor in direction `md`.
    pub fn add_neighbor(&mut self, index: usize, md: MoveDirection)
        ensures
            final(self).spec_get(md) == Some(index),
            forall|other: MoveDirection| other != md
                ==> final(self).spec_get(other) == old(self).spec_get(other),
    {
        match md {
            MoveDirection::MdUp => self.up = Some(index),
            MoveDirection::MdDown => self.down = Some(index),
            MoveDirection::MdLeft => self.left = Some(index),
            MoveDirection::MdRight => self.right = Some(index),
            MoveDirection::MdUpLeft => self.up_left = Some(index),
            MoveDirection::MdUpRight => self.up_right = Some(index),
            MoveDirection::MdDownLeft => self.down_left = Some(index),
            MoveDirection::MdDownRight => self.down_right = Some(index),
        }
    }

    /// The neighbor recorded in direction `md`, if any.
    pub fn get_neighbor(&self, md: MoveDirection) -> (r: Option<usize>)
        ensures
            r == self.spec_get(md),
    {
        match md {
            MoveDirection::MdUp => self.up,
            MoveDirection::MdDown => self.down,
            MoveDirection::MdLeft => self.left,
            MoveDirection::MdRight => self.right,
            MoveDirection::MdUpLeft => self.up_left,
            MoveDirection::MdUpRight => self.up_right,
            MoveDirection::MdDownLeft => self.down_left,
            MoveDirection::MdDownRight => self.down_right,
        }
    }
}

/// True when `m` holds, for every direction, exactly the in-bounds neighbor
/// of `index` on a board of side length `size`.
pub open spec fn nmap_matches(m: NeighborIndexMap, size: int, index: int) -> bool {
    forall|md: MoveDirection| #[trigger] m.spec_get(md) == (match neighbor_index(
        size,
        index,
        md,
    ) {
        Some(j) => Some(j as usize),
        None => None::<usize>,
    })
}

/// The grid: side length, cell count, the cells themselves, and the
/// precomputed neighbor table, one entry set per cell.
#[derive(Debug)]
pub struct Board {
    size: usize,
    cp_count: usize,
    cross_points: Vec<CrossPoint>,
    neighbor_maps: Vec<NeighborIndexMap>,
}

impl Board {
    /// The side length.
    pub closed spec fn spec_size(&self) -> usize {
        self.size
    }

    /// The number of cross points, `size * size`.
    pub closed spec fn spec_cp_count(&self) -> usize {
        self.cp_count
    }

    /// The occupancy of every cross point, in flat-index order.
    pub closed spec fn cells(&self) -> Seq<Option<ChessType>> {
        self.cross_points@.map(|_i: int, cp: CrossPoint| cp.chess_state())
    }

    /// Well-formedness: the counts agree and the neighbor table holds, for
    /// every cell and direction, exactly the in-bounds adjacent index.
    pub closed spec fn wf(&self) -> bool {
        &&& self.cp_count == self.size * self.size
        &&& self.cross_points@.len() == self.cp_count
        &&& self.neighbor_maps@.len() == self.cp_count
        &&& forall|i: int| 0 <= i < self.cp_count ==> nmap_matches(
            #[trigger] self.neighbor_maps@[i],
            self.size as int,
            i,
        )
    }

    /// The basic size facts every well-formed board guarantees: one cell
    /// per cross point, and the count is the squared side length.
    pub proof fn lemma_wf_facts(&self)
        requires
            self.wf(),
        ensures
            self.cells().len() == self.spec_cp_count(),
            self.spec_cp_count() == self.spec_size() * self.spec_size(),
    {
    }

    /// A board of the classic side length, 15.
    pub fn new() -> (b: Board)
        ensures
            b.wf(),
            b.spec_size() == 15,
            b.spec_cp_count() == 225,
            b.cells().len() == 225,
            forall|i: int| 0 <= i < b.cells().len() ==> b.cells()[i] is None,
    {
        Board::create_by_size(15)
    }

    /// An empty board of the given side length, with its neighbor table
    /// fully precomputed.
    pub fn create_by_size(size: usize) -> (b: Board)
        requires
            size * size <= usize::MAX,
        ensures
            b.wf(),
            b.spec_size() == size,
            b.spec_cp_count() == size * size,
            b.cells().len() == size * size,
            forall|i: int| 0 <= i < b.cells().len() ==> b.cells()[i] is None,
    {
        let cp_count = size * size;

        let mut cross_points: Vec<CrossPoint> = Vec::new();
        let mut i: usize = 0;
        while i < cp_count
            invariant
                i <= cp_count,
                cross_points@.len() == i,
                forall|j: int| 0 <= j < i ==> (#[trigger] cross_points@[j]).chess_state() is None,
            decreases cp_count - i,
        {
            cross_points.push(CrossPoint::new());
            i = i + 1;
        }

        let mut neighbor_maps: Vec<NeighborIndexMap> = Vec::new();
        let mut i: usize = 0;
        while i < cp_count
            invariant
                i <= cp_count,
                cp_count == size * size,
                size * size <= usize::MAX,
                neighbor_maps@.len() == i,
                forall|j: int| 0 <= j < i ==> nmap_matches(
                    #[trigger] neighbor_maps@[j],
                    size as int,
                    j,
                ),
            decreases cp_count - i,
        {
            let m = Board::initial_map_at(size, i);
            neighbor_maps.push(m);
            i = i + 1;
        }

        let b = Board { size, cp_count, cross_points, neighbor_maps };
        proof {
            assert(b.cells().len() == size * size);
            assert(forall|i: int| 0 <= i < b.cells().len() ==> b.cells()[i] is None);
        }
        b
    }

    /// The neighbor entries of one cell, computed by direction arithmetic.
    fn initial_map_at(size: usize, index: usize) -> (m: NeighborIndexMap)
        requires
            size * size <= usize::MAX,
            index < size * size,
        ensures
            nmap_matches(m, size as int, index as int),
    {
        let mut m = NeighborIndexMap::new();
        let mds = [
            MoveDirection::MdUp,
            MoveDirection::MdDown,
            MoveDirection::MdLeft,
            MoveDirection::MdRight,
            MoveDirection::MdUpLeft,
            MoveDirection::MdUpRight,
            MoveDirection::MdDownLeft,
            MoveDirection::MdDownRight,
        ];
        let mut k: usize = 0;
        while k < 8
            invariant
                k <= 8,
                size * size <= usize::MAX,
                index < size * size,
                mds@.len() == 8,
                mds@ == seq![
                    MoveDirection::MdUp,
                    MoveDirection::MdDown,
                    MoveDirection::MdLeft,
                    MoveDirection::MdRight,
                    MoveDirection::MdUpLeft,
                    MoveDirection::MdUpRight,
                    MoveDirection::MdDownLeft,
                    MoveDirection::MdDownRight,
                ],
                forall|j: int| 0 <= j < k ==> #[trigger] m.spec_get(mds@[j]) == (
                match neighbor_index(size as int, index as int, mds@[j]) {
                    Some(n) => Some(n as usize),
                    None => None::<usize>,
                }),
                forall|j: int| k <= j < 8 ==> #[trigger] m.spec_get(mds@[j]) is None
                    || neighbor_index(size as int, index as int, mds@[j]) is Some,
            decreases 8 - k,
        {
            let md = mds[k];
            match Board::move_by_index(size, index, md) {
                Ok(neighbor) => m.add_neighbor(neighbor, md),
                Err(_) => {},
            }
            k = k + 1;
        }
        proof {
            assert forall|md: MoveDirection| #[trigger] m.spec_get(md) == (
            match neighbor_index(size as int, index as int, md) {
                Some(n) => Some(n as usize),
                None => None::<usize>,
            }) by {
                let j: int = match md {
                    MoveDirection::MdUp => 0,
                    MoveDirection::MdDown => 1,
                    MoveDirection::MdLeft => 2,
                    MoveDirection::MdRight => 3,
                    MoveDirection::MdUpLeft => 4,
                    MoveDirection::MdUpRight => 5,
                    MoveDirection::MdDownLeft => 6,
                    MoveDirection::MdDownRight => 7,
                };
                assert(mds@[j] == md);
                assert(m.spec_get(mds@[j]) == (match neighbor_index(
                    size as int,
                    index as int,
                    mds@[j],
                ) {
                    Some(n) => Some(n as usize),
                    None => None::<usize>,
                }));
            }
        }
        m
    }

    /// The in-bounds neighbor of `index` one step in direction `md`, found
    /// by shifting the row and column and checking the grid bounds.
    fn move_by_index(size: usize, index: usize, md: MoveDirection) -> (r: Result<usize, Error>)
        requires
            size * size <= usize::MAX,
            index < size * size,
        ensures
            (match neighbor_index(size as int, index as int, md) {
                Some(j) => r matches Ok(u) && u == j && u < size * size,
                None => r matches Err(e) && e.kind == ErrorKind::NoNeighbor,
            }),
    {
        proof {
            assert(size > 0) by (nonlinear_arith)
                requires
                    (index as int) < (size as int) * (size as int),
                    0 <= index as int,
            {}
        }
        let c = Coord::from_index(index, size);
        let row = c.row;
        let col = c.col;

        match md {
            MoveDirection::MdUp => {
                if row >= 1 {
                    Ok(Coord { row: row - 1, col }.to_index(size))
                } else {
                    Err(Board::no_neighbor_error())
                }
            },
            MoveDirection::MdDown => {
                if row + 1 < size {
                    Ok(Coord { row: row + 1, col }.to_index(size))
                } else {
                    Err(Board::no_neighbor_error())
                }
            },
            MoveDirection::MdLeft => {
                if col >= 1 {
                    Ok(Coord { row, col: col - 1 }.to_index(size))
                } else {
                    Err(Board::no_neighbor_error())
                }
            },
            MoveDirection::MdRight => {
                if col + 1 < size {
                    Ok(Coord { row, col: col + 1 }.to_index(size))
                } else {
                    Err(Board::no_neighbor_error())
                }
            },
            MoveDirection::MdUpLeft => {
                if row >= 1 && col >= 1 {
                    Ok(Coord { row: row - 1, col: col - 1 }.to_index(size))
                } else {
                    Err(Board::no_neighbor_error())
                }
            },
            MoveDirection::MdUpRight => {
                if row >= 1 && col + 1 < size {
                    Ok(Coord { row: row - 1, col: col + 1 }.to_index(size))
                } else {
                    Err(Board::no_neighbor_error())
                }
            },
            MoveDirection::MdDownLeft => {
                if row + 1 < size && col >= 1 {
                    Ok(Coord { row: row + 1, col: col - 1 }.to_index(size))
                } else {
                    Err(Board::no_neighbor_error())
                }
            },
            MoveDirection::MdDownRight => {
                if row + 1 < size && col + 1 < size {
                    Ok(Coord { row: row + 1, col: col + 1 }.to_index(size))
                } else {
                    Err(Board::no_neighbor_error())
                }
            },
        }
    }

    /// The error reported when a move would leave the grid.
    fn no_neighbor_error() -> (e: Error)
        ensures
            e.kind == ErrorKind::NoNeighbor,
    {
        Error::create(ErrorKind::NoNeighbor, "no neighbor in that direction")
    }

    /// The side length.
    pub fn size(&self) -> (s: usize)
        ensures
            s == self.spec_size(),
    {
        self.size
    }

    /// The number of cross points on the board.
    pub fn cp_count(&self) -> (n: usize)
        ensures
            n == self.spec_cp_count(),
    {
        self.cp_count
    }

    /// True iff `index` addresses a cross point of this board.
    pub fn is_index_valid(&self, index: usize) -> (b: bool)
        ensures
            b == (index < self.spec_cp_count()),
    {
        index < self.cp_count
    }

    /// The error reported for an index at or beyond the cell count.
    fn index_invalid_error() -> (e: Error)
        ensures
            e.kind == ErrorKind::IndexInvalid,
    {
        Error::create(ErrorKind::IndexInvalid, "cross point index out of range")
    }

    /// True iff the cross point at `index` is occupied.
    pub fn have_chess_at(&self, index: usize) -> (r: Result<bool, Error>)
        requires
            self.wf(),
        ensures
            index < self.spec_cp_count() ==> (r matches Ok(b)
                && b == self.cells()[index as int] is Some),
            index >= self.spec_cp_count() ==> (r matches Err(e)
                && e.kind == ErrorKind::IndexInvalid),
    {
        if !self.is_index_valid(index) {
            return Err(Board::index_invalid_error());
        }
        Ok(self.cross_points[index].have_chess())
    }

    /// The occupant of the cross point at `index`, if any.
    pub fn get_chess_at(&self, index: usize) -> (r: Result<Option<ChessType>, Error>)
        requires
            self.wf(),
        ensures
            index < self.spec_cp_count() ==> (r matches Ok(c)
                && c == self.cells()[index as int]),
            index >= self.spec_cp_count() ==> (r matches Err(e)
                && e.kind == ErrorKind::IndexInvalid),
    {
        if !self.is_index_valid(index) {
            return Err(Board::index_invalid_error());
        }
        Ok(self.cross_points[index].get_chess())
    }

    /// Places a piece at `index`; the cell must currently be empty.
    pub fn put_chess_at(&mut self, index: usize, chess: ChessType) -> (r: Result<(), Error>)
        requires
            old(self).wf(),
        ensures
            final(self).wf(),
            final(self).spec_size() == old(self).spec_size(),
            final(self).spec_cp_count() == old(self).spec_cp_count(),
            index < old(self).spec_cp_count() && old(self).cells()[index as int] is None
                ==> r is Ok && final(self).cells() == old(self).cells().update(
                index as int,
                Some(chess),
            ),
            index < old(self).spec_cp_count() && old(self).cells()[index as int] is Some
                ==> (r matches Err(e) && e.kind == ErrorKind::StateConflict)
                && final(self).cells() == old(self).cells(),
            index >= old(self).spec_cp_count() ==> (r matches Err(e)
                && e.kind == ErrorKind::IndexInvalid) && final(self).cells() == old(self).cells(),
    {
        if !self.is_index_valid(index) {
            return Err(Board::index_invalid_error());
        }
        let mut cp = self.cross_points[index];
        let r = cp.put_chess(chess);
        self.cross_points[index] = cp;
        proof {
            self.lemma_cells_after_set(*old(self), index as int, cp);
        }
        r
    }

    /// Removes the piece at `index`; the cell must currently be occupied.
    pub fn remove_chess_at(&mut self, index: usize) -> (r: Result<(), Error>)
        requires
            old(self).wf(),
        ensures
            final(self).wf(),
            final(self).spec_size() == old(self).spec_size(),
            final(self).spec_cp_count() == old(self).spec_cp_count(),
            index < old(self).spec_cp_count() && old(self).cells()[index as int] is Some
                ==> r is Ok && final(self).cells() == old(self).cells().update(
                index as int,
                None::<ChessType>,
            ),
            index < old(self).spec_cp_count() && old(self).cells()[index as int] is None
                ==> (r matches Err(e) && e.kind == ErrorKind::StateConflict)
                && final(self).cells() == old(self).cells(),
            index >= old(self).spec_cp_count() ==> (r matches Err(e)
                && e.kind == ErrorKind::IndexInvalid) && final(self).cells() == old(self).cells(),
    {
        if !self.is_index_valid(index) {
            return Err(Board::index_invalid_error());
        }
        let mut cp = self.cross_points[index];
        let r = cp.remove_chess();
        self.cross_points[index] = cp;
        proof {
            self.lemma_cells_after_set(*old(self), index as int, cp);
        }
        r
    }

    /// Sets the occupant at `index` unconditionally.
    pub fn override_chess_at(&mut self, index: usize, chess: ChessType) -> (r: Result<(), Error>)
        requires
            old(self).wf(),
        ensures
            final(self).wf(),
            final(self).spec_size() == old(self).spec_size(),
            final(self).spec_cp_count() == old(self).spec_cp_count(),
            index < old(self).spec_cp_count() ==> r is Ok
                && final(self).cells() == old(self).cells().update(index as int, Some(chess)),
            index >= old(self).spec_cp_count() ==> (r matches Err(e)
                && e.kind == ErrorKind::IndexInvalid) && final(self).cells() == old(self).cells(),
    {
        if !self.is_index_valid(index) {
            return Err(Board::index_invalid_error());
        }
        let mut cp = self.cross_points[index];
        cp.override_with(chess);
        self.cross_points[index] = cp;
        proof {
            self.lemma_cells_after_set(*old(self), index as int, cp);
        }
        Ok(())
    }

    /// Empties the cell at `index` unconditionally; an empty cell stays empty.
    pub fn clear_at(&mut self, index: usize) -> (r: Result<(), Error>)
        requires
            old(self).wf(),
        ensures
            final(self).wf(),
            final(self).spec_size() == old(self).spec_size(),
            final(self).spec_cp_count() == old(self).spec_cp_count(),
            index < old(self).spec_cp_count() ==> r is Ok
                && final(self).cells() == old(self).cells().update(index as int, None::<ChessType>),
            index >= old(self).spec_cp_count() ==> (r matches Err(e)
                && e.kind == ErrorKind::IndexInvalid) && final(self).cells() == old(self).cells(),
    {
        if !self.is_index_valid(index) {
            return Err(Board::index_invalid_error());
        }
        let mut cp = self.cross_points[index];
        cp.clear();
        self.cross_points[index] = cp;
        proof {
            self.lemma_cells_after_set(*old(self), index as int, cp);
        }
        Ok(())
    }

    /// After writing one cross point, the cell sequence is the old one with
    /// that single position updated; everything else of the board is as was.
    proof fn lemma_cells_after_set(&self, prev: Board, i: int, cp: CrossPoint)
        requires
            prev.wf(),
            0 <= i < prev.cross_points@.len(),
            self.size == prev.size,
            self.cp_count == prev.cp_count,
            self.neighbor_maps == prev.neighbor_maps,
            self.cross_points@ == prev.cross_points@.update(i, cp),
        ensures
            self.wf(),
            self.cells() == prev.cells().update(i, cp.chess_state()),
    {
        assert(self.cells() =~= prev.cells().update(i, cp.chess_state()));
    }

    /// Resolves the neighbor table: the adjacent index one step in direction
    /// `md`, or the expected no-neighbor failure at the grid's edge.
    pub fn move_by_direction(&self, index: usize, md: MoveDirection) -> (r: Result<usize, Error>)
        requires
            self.wf(),
        ensures
            index < self.spec_cp_count() ==> (match neighbor_index(
                self.spec_size() as int,
                index as int,
                md,
            ) {
                Some(j) => r matches Ok(u) && u == j && u < self.spec_cp_count(),
                None => r matches Err(e) && e.kind == ErrorKind::NoNeighbor,
            }),
            index >= self.spec_cp_count() ==> (r matches Err(e)
                && e.kind == ErrorKind::IndexInvalid),
    {
        if !self.is_index_valid(index) {
            return Err(Board::index_invalid_error());
        }
        self.move_by_map(index, md)
    }

    /// The table lookup behind `move_by_direction`.
    fn move_by_map(&self, index: usize, md: MoveDirection) -> (r: Result<usize, Error>)
        requires
            self.wf(),
            index < self.spec_cp_count(),
        ensures
            (match neighbor_index(self.spec_size() as int, index as int, md) {
                Some(j) => r matches Ok(u) && u == j && u < self.spec_cp_count(),
                None => r matches Err(e) && e.kind == ErrorKind::NoNeighbor,
            }),
    {
        proof {
            lemma_neighbor_in_range(self.size as int, index as int, md);
        }
        match self.neighbor_maps[index].get_neighbor(md) {
            Some(neighbor) => Ok(neighbor),
            None => Err(Board::no_neighbor_error()),
        }
    }
}

impl Clone for Board {
    /// Clones the board: the copy has the same size, the same occupancy
    /// everywhere, and the same neighbor table, so it is well formed
    /// whenever the original is.
    fn clone(&self) -> (res: Board)
        ensures
            res.spec_size() == self.spec_size(),
            res.spec_cp_count() == self.spec_cp_count(),
            res.cells() == self.cells(),
            self.wf() ==> res.wf(),
    {
        let mut cross_points: Vec<CrossPoint> = Vec::new();
        let mut i: usize = 0;
        while i < self.cross_points.len()
            invariant
                i <= self.cross_points@.len(),
                cross_points@.len() == i,
                forall|j: int| 0 <= j < i ==> cross_points@[j] == self.cross_points@[j],
            decreases self.cross_points@.len() - i,
        {
            cross_points.push(self.cross_points[i]);
            i = i + 1;
        }
        let mut neighbor_maps: Vec<NeighborIndexMap> = Vec::new();
        let mut i: usize = 0;
        while i < self.neighbor_maps.len()
            invariant
                i <= self.neighbor_maps@.len(),
                neighbor_maps@.len() == i,
                forall|j: int| 0 <= j < i ==> neighbor_maps@[j] == self.neighbor_maps@[j],
            decreases self.neighbor_maps@.len() - i,
        {
            neighbor_maps.push(self.neighbor_maps[i]);
            i = i + 1;
        }
        let res = Board { size: self.size, cp_count: self.cp_count, cross_points, neighbor_maps };
        proof {
            assert(res.cross_points@ =~= self.cross_points@);
            assert(res.neighbor_maps@ =~= self.neighbor_maps@);
            assert(res.cells() =~= self.cells());
        }
        res
    }
}

/// An in-bounds neighbor's index is itself in bounds: it is some in-range
/// row times the side length plus an in-range column.
proof fn lemma_neighbor_in_range(size: int, index: int, md: MoveDirection)
    requires
        size >= 0,
        0 <= index < size * size,
    ensures
        (match neighbor_index(size, index, md) {
            Some(j) => 0 <= j < size * size,
            None => true,
        }),
{
    assert(size > 0) by (nonlinear_arith)
        requires
            size >= 0,
            0 <= index < size * size,
    {}
    let row = index / size + row_delta(md);
    let col = index % size + col_delta(md);
    if 0 <= row < size && 0 <= col < size {
        assert(0 <= row * size + col < size * size) by (nonlinear_arith)
            requires
                0 <= row < size,
                0 <= col < size,
        {}
    }
}

/// At the grid's edges no neighbor lies outward: on the first row the three
/// upward directions are absent, and likewise for the last row and the first
/// and last columns.
pub proof fn lemma_boundary_no_neighbor(size: int, index: int)
    requires
        0 < size,
        0 <= index < size * size,
    ensures
        index / size == 0 ==> neighbor_index(size, index, MoveDirection::MdUp) is None
            && neighbor_index(size, index, MoveDirection::MdUpLeft) is None
            && neighbor_index(size, index, MoveDirection::MdUpRight) is None,
        index / size == size - 1 ==> neighbor_index(size, index, MoveDirection::MdDown) is None
            && neighbor_index(size, index, MoveDirection::MdDownLeft) is None
            && neighbor_index(size, index, MoveDirection::MdDownRight) is None,
        index % size == 0 ==> neighbor_index(size, index, MoveDirection::MdLeft) is None
            && neighbor_index(size, index, MoveDirection::MdUpLeft) is None
            && neighbor_index(size, index, MoveDirection::MdDownLeft) is None,
        index % size == size - 1 ==> neighbor_index(size, index, MoveDirection::MdRight) is None
            && neighbor_index(size, index, MoveDirection::MdUpRight) is None
            && neighbor_index(size, index, MoveDirection::MdDownRight) is None,
{
}

/// Round trip of the occupancy model: placing a piece makes that cell hold
/// exactly that piece, and removing it afterwards leaves the cell empty,
/// with every other cell untouched both times.
pub proof fn lemma_put_remove_round_trip(
    cells: Seq<Option<ChessType>>,
    i: int,
    chess: ChessType,
)
    requires
        0 <= i < cells.len(),
    ensures
        cells.update(i, Some(chess))[i] == Some(chess),
        cells.update(i, Some(chess)).update(i, None::<ChessType>)[i] is None,
        forall|j: int| 0 <= j < cells.len() && j != i
            ==> cells.update(i, Some(chess)).update(i, None::<ChessType>)[j] == cells[j],
{
}

/// Clearing an already-empty cell changes nothing at all: the cell model
/// after the clear is the one before it.
pub proof fn lemma_clear_empty_is_identity(cells: Seq<Option<ChessType>>, i: int)
    requires
        0 <= i < cells.len(),
        cells[i] is None,
    ensures
        cells.update(i, None::<ChessType>) == cells,
{
    assert(cells.update(i, None::<ChessType>) =~= cells);
}

} // verus!
