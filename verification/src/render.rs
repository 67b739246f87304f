use vstd::prelude::*;

use crate::Cell;
use crate::GRID_H;
use crate::GRID_W;
use crate::board::Board;
use vstd::string::StringExecFns;

verus! {

/// Which entry of a glyph table stands for this cell kind.
pub open spec fn glyph_index(c: Cell) -> int {
    match c {
        Cell::X => 0,
        Cell::O => 1,
        Cell::Empty => 2,
    }
}

/// The characters an ordinary cell of kind `c` is drawn with.
pub open spec fn default_glyph_chars(c: Cell) -> Seq<char> {
    match c {
        Cell::X => "❌"@,
        Cell::O => "⭕️"@,
        Cell::Empty => "⬜️"@,
    }
}

/// The characters the hovered cell of kind `c` is drawn with.
pub open spec fn hovered_glyph_chars(c: Cell) -> Seq<char> {
    match c {
        Cell::X => "✖️ "@,
        Cell::O => "🔘"@,
        Cell::Empty => "🔲"@,
    }
}

/// Glyph table for ordinary cells, indexed by `glyph_index`.
pub fn default_xoe() -> (r: Vec<&'static str>)
    ensures
        r@.len() == 3,
        forall|c: Cell| (#[trigger] r@[glyph_index(c)])@ == default_glyph_chars(c),
{
    let mut v: Vec<&'static str> = Vec::new();
    v.push("❌");
    v.push("⭕️");
    v.push("⬜️");
    v
}

/// Glyph table for the cell under the cursor, indexed by `glyph_index`.
pub fn hovered_xoe() -> (r: Vec<&'static str>)
    ensures
        r@.len() == 3,
        forall|c: Cell| (#[trigger] r@[glyph_index(c)])@ == hovered_glyph_chars(c),
{
    let mut v: Vec<&'static str> = Vec::new();
    v.push("✖️ ");
    v.push("🔘");
    v.push("🔲");
    v
}

impl Cell {
    /// The glyph for this kind, out of a table's first three entries.
    pub fn display<'a>(&self, xoe: &'a [&'a str]) -> (r: &'a str)
        requires
            xoe@.len() >= 3,
        ensures
            r == xoe@[glyph_index(*self)],
    {
        match self {
            Cell::X => xoe[0],
            Cell::O => xoe[1],
            Cell::Empty => xoe[2],
        }
    }

    /// The glyph for an optional cell; a lone space when there is none.
    pub fn get_display_string<'a>(self_: Option<&Cell>, xoe: &'a [&'a str]) -> (r: &'a str)
        requires
            xoe@.len() >= 3,
        ensures
            match self_ {
                Some(c) => r == xoe@[glyph_index(*c)],
                None => r@ == " "@,
            },
    {
        match self_ {
            Some(e) => e.display(xoe),
            None => " ",
        }
    }
}

/// The characters cell (x, y) is drawn with: the hovered glyph under the
/// cursor, the ordinary one elsewhere.
pub open spec fn cell_chars(b: &Board, x: int, y: int) -> Seq<char> {
    if b.cursor.0 == x && b.cursor.1 == y {
        hovered_glyph_chars(b.cell_at(x, y))
    } else {
        default_glyph_chars(b.cell_at(x, y))
    }
}

/// The first `n` cells of row `y`, drawn left to right.
pub open spec fn row_prefix_chars(b: &Board, y: int, n: int) -> Seq<char>
    decreases n,
{
    if n <= 0 {
        Seq::empty()
    } else {
        row_prefix_chars(b, y, n - 1) + cell_chars(b, n - 1, y)
    }
}

/// The first `n` rows, each drawn whole and closed with "\r\n".
pub open spec fn rows_prefix_chars(b: &Board, n: int) -> Seq<char>
    decreases n,
{
    if n <= 0 {
        Seq::empty()
    } else {
        rows_prefix_chars(b, n - 1) + row_prefix_chars(b, n - 1, GRID_W as int) + "\r\n"@
    }
}

/// The title line: the transient message when one is set, else whose turn
/// it is.
pub open spec fn title_chars(b: &Board) -> Seq<char> {
    match b.title {
        Some(t) => t@,
        None => default_glyph_chars(b.player) + "'s turn!"@,
    }
}

/// Everything `render` yields: title, then the grid row by row.
pub open spec fn render_chars(b: &Board) -> Seq<char> {
    title_chars(b) + "\r\n"@ + rows_prefix_chars(b, GRID_H as int)
}

impl Board {
    /// The full textual picture of the state, for a display collaborator
    /// to show verbatim: a title line, then one line per row with the
    /// hovered cell drawn distinctly.
    pub fn render(&self) -> (s: String)
        requires
            self.wf(),
        ensures
            s@ == render_chars(self),
    {
        let default_table = default_xoe();
        let hovered_table = hovered_xoe();
        let mut s: String = match &self.title {
            Some(t) => t.clone(),
            None => {
                let mut turn = String::new();
                turn.append(self.player.display(default_table.as_slice()));
                turn.append("'s turn!");
                proof {
                    assert(turn@ =~= title_chars(self));
                }
                turn
            },
        };
        s.append("\r\n");
        let mut y: usize = 0;
        proof {
            assert(s@ =~= title_chars(self) + "\r\n"@ + rows_prefix_chars(self, 0));
        }
        while y < GRID_H
            invariant
                self.wf(),
                y <= GRID_H,
                default_table@.len() == 3,
                hovered_table@.len() == 3,
                forall|c: Cell| (#[trigger] default_table@[glyph_index(c)])@
                    == default_glyph_chars(c),
                forall|c: Cell| (#[trigger] hovered_table@[glyph_index(c)])@
                    == hovered_glyph_chars(c),
                s@ == title_chars(self) + "\r\n"@ + rows_prefix_chars(self, y as int),
            decreases GRID_H - y,
        {
            let mut x: usize = 0;
            while x < GRID_W
                invariant
                    self.wf(),
                    y < GRID_H,
                    x <= GRID_W,
                    default_table@.len() == 3,
                    hovered_table@.len() == 3,
                    forall|c: Cell| (#[trigger] default_table@[glyph_index(c)])@
                        == default_glyph_chars(c),
                    forall|c: Cell| (#[trigger] hovered_table@[glyph_index(c)])@
                        == hovered_glyph_chars(c),
                    s@ == title_chars(self) + "\r\n"@ + rows_prefix_chars(self, y as int)
                        + row_prefix_chars(self, y as int, x as int),
                decreases GRID_W - x,
            {
                let glyph: &str = if self.cursor.0 == x && self.cursor.1 == y {
                    Cell::get_display_string(self.get(x, y), hovered_table.as_slice())
                } else {
                    Cell::get_display_string(self.get(x, y), default_table.as_slice())
                };
                s.append(glyph);
                proof {
                    assert(glyph@ == cell_chars(self, x as int, y as int));
                    assert(s@ =~= title_chars(self) + "\r\n"@ + rows_prefix_chars(self, y as int)
                        + row_prefix_chars(self, y as int, x as int + 1));
                }
                x = x + 1;
            }
            s.append("\r\n");
            proof {
                assert(s@ =~= title_chars(self) + "\r\n"@ + rows_prefix_chars(
                    self,
                    y as int + 1,
                ));
            }
            y = y + 1;
        }
        s
    }
}

} // verus!
