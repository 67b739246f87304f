use vstd::prelude::*;

use crate::Cell;
use crate::board::Board;
use crate::board::Direction;
use crate::board::moved_cursor;
use crate::board::toggled;
use crate::render::default_glyph_chars;
use crate::render::default_xoe;
use crate::scan::is_winning_placement;
use crate::scan::lemma_win_depends_on_cells;
use vstd::string::StringExecFns;

verus! {

/// One logical key press, as the input collaborator reports it.
#[derive(Clone, Copy, Debug, PartialEq, Eq, Structural)]
pub enum Key {
    Quit,
    MoveUp,
    MoveDown,
    MoveLeft,
    MoveRight,
    Place,
    Other,
}

/// What one key press did, and what the caller owes the player next.
#[derive(Clone, Copy, Debug, PartialEq, Eq, Structural)]
pub enum StepResult {
    /// The session ends at the player's request.
    Quit,
    /// The cursor moved; show the board again.
    Moved,
    /// The placement hit a taken cell; show the transient title, then
    /// clear it.
    Occupied,
    /// The placement stood and play goes on with the other player.
    Placed,
    /// The placement completed a run: this kind has won and play is over.
    Won(Cell),
    /// The key means nothing here.
    Ignored,
}

/// The title shown when a placement hits a cell already holding `k`.
pub open spec fn occupied_title_chars(k: Cell) -> Seq<char> {
    "Occupied by "@ + default_glyph_chars(k)
}

/// The player to move after `n` successful, non-winning placements.
pub open spec fn player_after(start: Cell, n: nat) -> Cell
    decreases n,
{
    if n == 0 {
        start
    } else {
        toggled(player_after(start, (n - 1) as nat))
    }
}

/// Law: starting from X, after `n` successful non-winning placements the
/// player to move is X when `n` is even and O when `n` is odd.
pub proof fn lemma_alternation(n: nat)
    ensures
        player_after(Cell::X, n) == if n % 2 == 0 {
            Cell::X
        } else {
            Cell::O
        },
    decreases n,
{
    if n > 0 {
        lemma_alternation((n - 1) as nat);
    }
}

impl Board {
    /// Feeds one key press through the input-action mapping: quit ends the
    /// session untouched; a movement key shifts the cursor; the placement
    /// key tries the cursor's cell, reporting the occupant, a win, or an
    /// ordinary placement that hands the turn over; other keys do nothing.
    pub fn step(&mut self, key: Key) -> (r: StepResult)
        requires
            old(self).wf(),
        ensures
            final(self).wf(),
            key == Key::Quit || key == Key::Other ==> {
                &&& r == (if key == Key::Quit {
                    StepResult::Quit
                } else {
                    StepResult::Ignored
                })
                &&& final(self).cells@ == old(self).cells@
                &&& final(self).title == old(self).title
                &&& final(self).player == old(self).player
                &&& final(self).cursor == old(self).cursor
            },
            (key == Key::MoveUp || key == Key::MoveDown || key == Key::MoveLeft || key
                == Key::MoveRight) ==> {
                &&& r == StepResult::Moved
                &&& final(self).cells@ == old(self).cells@
                &&& final(self).title == old(self).title
                &&& final(self).player == old(self).player
                &&& final(self).cursor == moved_cursor(
                    old(self).cursor,
                    match key {
                        Key::MoveUp => Direction::U,
                        Key::MoveDown => Direction::D,
                        Key::MoveLeft => Direction::L,
                        _ => Direction::R,
                    },
                )
            },
            key == Key::Place && old(self).cell_at(
                old(self).cursor.0 as int,
                old(self).cursor.1 as int,
            ) != Cell::Empty ==> {
                &&& r == StepResult::Occupied
                &&& final(self).cells@ == old(self).cells@
                &&& final(self).player == old(self).player
                &&& final(self).cursor == old(self).cursor
                &&& match final(self).title {
                    Some(t) => t@ == occupied_title_chars(
                        old(self).cell_at(old(self).cursor.0 as int, old(self).cursor.1 as int),
                    ),
                    None => false,
                }
            },
            key == Key::Place && old(self).cell_at(
                old(self).cursor.0 as int,
                old(self).cursor.1 as int,
            ) == Cell::Empty ==> {
                &&& old(self).grid_updated(
                    *final(self),
                    old(self).cursor.0 as int,
                    old(self).cursor.1 as int,
                    old(self).player,
                )
                &&& final(self).cursor == old(self).cursor
                &&& if is_winning_placement(
                    &*final(self),
                    old(self).cursor.0 as int,
                    old(self).cursor.1 as int,
                ) {
                    &&& r == StepResult::Won(old(self).player)
                    &&& final(self).player == old(self).player
                    &&& final(self).title == old(self).title
                } else {
                    &&& r == StepResult::Placed
                    &&& final(self).player == toggled(old(self).player)
                    &&& final(self).title is None
                }
            },
    {
        match key {
            Key::Quit => StepResult::Quit,
            Key::MoveUp => {
                self.move_cursor(Direction::U);
                StepResult::Moved
            },
            Key::MoveDown => {
                self.move_cursor(Direction::D);
                StepResult::Moved
            },
            Key::MoveLeft => {
                self.move_cursor(Direction::L);
                StepResult::Moved
            },
            Key::MoveRight => {
                self.move_cursor(Direction::R);
                StepResult::Moved
            },
            Key::Place => {
                let x = self.cursor.0;
                let y = self.cursor.1;
                let player = self.player;
                match self.set(x, y, player) {
                    Ok(_) => {
                        let ghost placed = *self;
                        if self.check_win((x, y)) {
                            StepResult::Won(player)
                        } else {
                            self.toggle_player();
                            self.title = None;
                            proof {
                                let ghost ended = *self;
                                lemma_win_depends_on_cells(&placed, &ended, x as int, y as int);
                                assert forall|xx: int, yy: int|
                                    0 <= yy < old(self).cells@.len() && 0 <= xx < old(
                                        self,
                                    ).cells@[yy]@.len() implies #[trigger] ended.cell_at(xx, yy)
                                    == placed.cell_at(xx, yy) by {
                                    assert(ended.cells@[yy] == placed.cells@[yy]);
                                }
                                assert(old(self).grid_updated(
                                    ended,
                                    x as int,
                                    y as int,
                                    old(self).player,
                                ));
                            }
                            StepResult::Placed
                        }
                    },
                    Err(tile) => {
                        let table = default_xoe();
                        let mut message = String::new();
                        message.append("Occupied by ");
                        message.append(tile.display(table.as_slice()));
                        proof {
                            assert(message@ =~= occupied_title_chars(tile));
                        }
                        self.title = Some(message);
                        StepResult::Occupied
                    },
                }
            },
            Key::Other => StepResult::Ignored,
        }
    }
}

} // verus!
