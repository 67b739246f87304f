use vstd::prelude::*;

use crate::Cell;
use crate::GRID_H;
use crate::GRID_W;
use crate::in_bounds;

verus! {

/// A direction in which the cursor can move one step.
#[derive(Clone, Copy, Debug, PartialEq, Eq, Structural)]
pub enum Direction {
    L,
    R,
    U,
    D,
}

/// The whole game state: cell occupancy, the transient title line,
/// the player whose turn it is, and the cursor position.
pub struct Board {
    pub cells: Vec<Vec<Cell>>,
    pub title: Option<String>,
    pub player: Cell,
    pub cursor: (usize, usize),
}

impl Board {
    /// The grid holds exactly GRID_H rows of GRID_W cells each, the cursor
    /// lies on the board, and the player to move is never Empty.
    pub open spec fn wf(&self) -> bool {
        &&& self.cells@.len() == GRID_H
        &&& forall|y: int| 0 <= y < GRID_H ==> (#[trigger] self.cells@[y])@.len() == GRID_W
        &&& self.cursor.0 < GRID_W
        &&& self.cursor.1 < GRID_H
        &&& self.player != Cell::Empty
    }

    /// The occupancy of position (x, y); meaningful only on the board.
    pub open spec fn cell_at(&self, x: int, y: int) -> Cell
        recommends
            self.wf(),
            in_bounds(x, y),
    {
        self.cells@[y]@[x]
    }

    /// The grids of two states agree everywhere but at (x, y), where the
    /// second holds `value`.
    pub open spec fn grid_updated(&self, next: Self, x: int, y: int, value: Cell) -> bool {
        &&& next.cells@.len() == self.cells@.len()
        &&& forall|yy: int| 0 <= yy < self.cells@.len() ==> (#[trigger] next.cells@[yy])@.len()
            == self.cells@[yy]@.len()
        &&& forall|xx: int, yy: int|
            0 <= yy < self.cells@.len() && 0 <= xx < self.cells@[yy]@.len() && (xx, yy) != (x, y)
                ==> #[trigger] next.cell_at(xx, yy) == self.cell_at(xx, yy)
        &&& next.cell_at(x, y) == value
    }

    /// A fresh game: every cell Empty, X to move, the cursor at the center,
    /// no title. The board size is fixed; `size` must name it.
    pub fn new(size: (usize, usize)) -> (board: Self)
        requires
            size.0 == GRID_W,
            size.1 == GRID_H,
        ensures
            board.wf(),
            forall|x: int, y: int| in_bounds(x, y) ==> #[trigger] board.cell_at(x, y)
                == Cell::Empty,
            board.player == Cell::X,
            board.cursor == (GRID_W / 2, GRID_H / 2),
            board.title is None,
    {
        let mut cells: Vec<Vec<Cell>> = Vec::new();
        while cells.len() < size.1
            invariant
                size.1 == GRID_H,
                size.0 == GRID_W,
                cells@.len() <= GRID_H,
                forall|y: int| 0 <= y < cells@.len() ==> (#[trigger] cells@[y])@.len() == GRID_W,
                forall|y: int, x: int| 0 <= y < cells@.len() && 0 <= x < GRID_W
                    ==> #[trigger] cells@[y]@[x] == Cell::Empty,
            decreases GRID_H - cells@.len(),
        {
            let mut row: Vec<Cell> = Vec::new();
            while row.len() < size.0
                invariant
                    size.0 == GRID_W,
                    row@.len() <= GRID_W,
                    forall|x: int| 0 <= x < row@.len() ==> row@[x] == Cell::Empty,
                decreases GRID_W - row@.len(),
            {
                row.push(Cell::Empty);
            }
            cells.push(row);
        }
        Board { cells, player: Cell::X, cursor: (GRID_W / 2, GRID_H / 2), title: None }
    }

    /// The occupancy at (x, y): Some of the cell on the board, None off it.
    pub fn get(&self, x: usize, y: usize) -> (r: Option<&Cell>)
        requires
            self.wf(),
        ensures
            match r {
                Some(c) => in_bounds(x as int, y as int) && *c == self.cell_at(x as int, y as int),
                None => !in_bounds(x as int, y as int),
            },
    {
        match self.cells.get(y) {
            Some(e) => e.get(x),
            None => None,
        }
    }

    /// A mutable handle on the cell at (x, y), when it is on the board.
    pub fn get_mut(&mut self, x: usize, y: usize) -> (r: Option<&mut Cell>)
        requires
            old(self).wf(),
        ensures
            !in_bounds(x as int, y as int) ==> {
                &&& r is None
                &&& final(self).cells@ == old(self).cells@
                &&& final(self).title == old(self).title
                &&& final(self).player == old(self).player
                &&& final(self).cursor == old(self).cursor
            },
            in_bounds(x as int, y as int) ==> match r {
                Some(c) => {
                    &&& *c == old(self).cell_at(x as int, y as int)
                    &&& old(self).grid_updated(*final(self), x as int, y as int, *final(c))
                    &&& final(self).wf()
                    &&& final(self).title == old(self).title
                    &&& final(self).player == old(self).player
                    &&& final(self).cursor == old(self).cursor
                },
                None => false,
            },
    {
        if y < self.cells.len() {
            if x < self.cells[y].len() {
                let row = &mut self.cells[y];
                Some(&mut row[x])
            } else {
                None
            }
        } else {
            None
        }
    }

    /// Places `cell` at (x, y). Fails with the occupying kind when the cell
    /// is taken, and with Empty when (x, y) is off the board; only on
    /// success does the grid change.
    pub fn set(&mut self, x: usize, y: usize, cell: Cell) -> (r: Result<(), Cell>)
        requires
            old(self).wf(),
        ensures
            final(self).wf(),
            final(self).title == old(self).title,
            final(self).player == old(self).player,
            final(self).cursor == old(self).cursor,
            !in_bounds(x as int, y as int) ==> r == Err::<(), Cell>(Cell::Empty)
                && final(self).cells@ == old(self).cells@,
            in_bounds(x as int, y as int) && old(self).cell_at(x as int, y as int) != Cell::Empty
                ==> r == Err::<(), Cell>(old(self).cell_at(x as int, y as int))
                && final(self).cells@ == old(self).cells@,
            in_bounds(x as int, y as int) && old(self).cell_at(x as int, y as int) == Cell::Empty
                ==> r == Ok::<(), Cell>(()) && old(self).grid_updated(
                *final(self),
                x as int,
                y as int,
                cell,
            ),
    {
        match self.get(x, y) {
            Some(Cell::O) => Err(Cell::O),
            Some(Cell::X) => Err(Cell::X),
            Some(Cell::Empty) => match self.get_mut(x, y) {
                Some(e) => {
                    *e = cell;
                    Ok(())
                },
                None => Err(Cell::Empty),
            },
            None => Err(Cell::Empty),
        }
    }

    /// Hands the turn to the other player.
    pub fn toggle_player(&mut self)
        requires
            old(self).wf(),
        ensures
            final(self).wf(),
            final(self).player == toggled(old(self).player),
            final(self).cells@ == old(self).cells@,
            final(self).title == old(self).title,
            final(self).cursor == old(self).cursor,
    {
        self.player = match self.player {
            Cell::X => Cell::O,
            Cell::O => Cell::X,
            Cell::Empty => Cell::Empty,
        };
    }

    /// Moves the cursor one step, clamped at the board's edges.
    pub fn move_cursor(&mut self, direction: Direction)
        requires
            old(self).wf(),
        ensures
            final(self).wf(),
            final(self).cells@ == old(self).cells@,
            final(self).title == old(self).title,
            final(self).player == old(self).player,
            final(self).cursor == moved_cursor(old(self).cursor, direction),
    {
        match direction {
            Direction::L => {
                if self.cursor.0 != 0 {
                    self.cursor = (self.cursor.0 - 1, self.cursor.1);
                }
            },
            Direction::R => {
                if self.cursor.0 + 1 < GRID_W {
                    self.cursor = (self.cursor.0 + 1, self.cursor.1);
                } else {
                    self.cursor = (GRID_W - 1, self.cursor.1);
                }
            },
            Direction::U => {
                if self.cursor.1 != 0 {
                    self.cursor = (self.cursor.0, self.cursor.1 - 1);
                }
            },
            Direction::D => {
                if self.cursor.1 + 1 < GRID_H {
                    self.cursor = (self.cursor.0, self.cursor.1 + 1);
                } else {
                    self.cursor = (self.cursor.0, GRID_H - 1);
                }
            },
        }
    }

    /// Drops the transient title line.
    pub fn clear_title(&mut self)
        requires
            old(self).wf(),
        ensures
            final(self).wf(),
            final(self).title is None,
            final(self).cells@ == old(self).cells@,
            final(self).player == old(self).player,
            final(self).cursor == old(self).cursor,
    {
        self.title = None;
    }
}

/// The other of the two playing kinds; Empty is left alone.
pub open spec fn toggled(c: Cell) -> Cell {
    match c {
        Cell::X => Cell::O,
        Cell::O => Cell::X,
        Cell::Empty => Cell::Empty,
    }
}

/// Where one clamped cursor step from `c` lands.
pub open spec fn moved_cursor(c: (usize, usize), d: Direction) -> (usize, usize)
    recommends
        c.0 < GRID_W,
        c.1 < GRID_H,
{
    match d {
        Direction::L => (if c.0 == 0 { 0usize } else { (c.0 - 1) as usize }, c.1),
        Direction::R => (
            if c.0 + 1 < GRID_W {
                (c.0 + 1) as usize
            } else {
                (GRID_W - 1) as usize
            },
            c.1,
        ),
        Direction::U => (c.0, if c.1 == 0 { 0usize } else { (c.1 - 1) as usize }),
        Direction::D => (
            c.0,
            if c.1 + 1 < GRID_H {
                (c.1 + 1) as usize
            } else {
                (GRID_H - 1) as usize
            },
        ),
    }
}

/// Law: one cursor step, in any direction, stays on the board, and a step
/// against an edge leaves that coordinate at the edge.
pub proof fn lemma_cursor_clamped(c: (usize, usize), d: Direction)
    requires
        c.0 < GRID_W,
        c.1 < GRID_H,
    ensures
        moved_cursor(c, d).0 < GRID_W,
        moved_cursor(c, d).1 < GRID_H,
        c.0 == 0 && d == Direction::L ==> moved_cursor(c, d).0 == 0,
        c.0 == GRID_W - 1 && d == Direction::R ==> moved_cursor(c, d).0 == GRID_W - 1,
        c.1 == 0 && d == Direction::U ==> moved_cursor(c, d).1 == 0,
        c.1 == GRID_H - 1 && d == Direction::D ==> moved_cursor(c, d).1 == GRID_H - 1,
{
}

} // verus!
