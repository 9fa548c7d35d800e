//! A two-player, turn-based board game on a 3x3 grid.
//!
//! `Game` owns the grid and the active player, validates and applies moves,
//! and detects wins and draws. X moves first; players alternate on every
//! successful move. The grid is modelled as a row-major sequence of nine
//! cells, each empty or marked with a player.

use vstd::prelude::*;
use vstd::pervasive::VecAdditionalExecFns;
use vstd::string::StringExecFns;

verus! {

/// One of the two turn-taking identities.
#[derive(Clone, Copy, PartialEq, Eq, Structural, Debug)]
pub enum Player {
    X,
    O,
}

impl Player {
    /// The opponent of this player.
    pub open spec fn spec_other(self) -> Player {
        match self {
            Player::X => Player::O,
            Player::O => Player::X,
        }
    }

    /// Returns the opponent of this player.
    pub fn other(self) -> (r: Player)
        ensures
            r == self.spec_other(),
    {
        match self {
            Player::X => Player::O,
            Player::O => Player::X,
        }
    }
}

/// Why a move was rejected. A rejected move leaves the game unchanged.
#[derive(Clone, Copy, PartialEq, Eq, Structural, Debug)]
pub enum MoveError {
    /// The row or column lies outside `[0, 2]`.
    OutOfBounds,
    /// The targeted cell is already marked.
    CellOccupied,
}

/// How many cells of `g` are marked with `p`.
pub open spec fn count_marks(g: Seq<Option<Player>>, p: Player) -> nat
    decreases g.len(),
{
    if g.len() == 0 {
        0
    } else {
        count_marks(g.drop_last(), p) + if g.last() == Some(p) {
            1nat
        } else {
            0nat
        }
    }
}

/// The game state: a 3x3 grid of cells, row-major, and the player to move.
pub struct Game {
    board: Vec<Option<Player>>,
    current_player: Player,
}

impl Game {
    /// The grid as a sequence of nine cells; cell (row, col) is at `row * 3 + col`.
    pub closed spec fn grid(self) -> Seq<Option<Player>> {
        self.board@
    }

    /// The player whose turn it is.
    pub closed spec fn player(self) -> Player {
        self.current_player
    }

    /// Well-formedness: nine cells, and since X moves first and turns
    /// alternate, X has marked exactly as many cells as O when X is to
    /// move, and one more when O is to move.
    pub open spec fn wf(self) -> bool {
        &&& self.grid().len() == 9
        &&& (self.player() == Player::X ==> count_marks(self.grid(), Player::X)
            == count_marks(self.grid(), Player::O))
        &&& (self.player() == Player::O ==> count_marks(self.grid(), Player::X)
            == count_marks(self.grid(), Player::O) + 1)
    }

    /// A fresh game: every cell empty, X to move.
    pub fn new() -> (g: Game)
        ensures
            g.wf(),
            g.grid().len() == 9,
            forall|i: int| 0 <= i < 9 ==> g.grid()[i] is None,
            g.player() == Player::X,
    {
        let mut board: Vec<Option<Player>> = Vec::new();
        let mut i: usize = 0;
        while i < 9
            invariant
                board@.len() == i,
                i <= 9,
                forall|j: int| 0 <= j < i ==> board@[j] is None,
            decreases 9 - i,
        {
            board.push(None);
            i = i + 1;
        }
        let g = Game { board, current_player: Player::X };
        proof {
            lemma_count_all_empty(g.grid(), Player::X);
            lemma_count_all_empty(g.grid(), Player::O);
        }
        g
    }
}

impl Game {
    /// Whether (row, col) names a cell of the 3x3 grid.
    pub open spec fn in_bounds(row: int, col: int) -> bool {
        0 <= row < 3 && 0 <= col < 3
    }

    /// The row-major position of cell (row, col).
    pub open spec fn idx(row: int, col: int) -> int {
        row * 3 + col
    }

    /// Validates and applies a move at (row, col) for the active player.
    ///
    /// On success the cell is marked and the turn passes to the opponent;
    /// on failure the game is unchanged and the error says why.
    pub fn make_move(&mut self, row: usize, col: usize) -> (r: Result<(), MoveError>)
        requires
            old(self).wf(),
        ensures
            final(self).wf(),
            !Self::in_bounds(row as int, col as int) ==> {
                &&& r == Err::<(), MoveError>(MoveError::OutOfBounds)
                &&& final(self).grid() == old(self).grid()
                &&& final(self).player() == old(self).player()
            },
            Self::in_bounds(row as int, col as int) && old(self).grid()[Self::idx(
                row as int,
                col as int,
            )] is Some ==> {
                &&& r == Err::<(), MoveError>(MoveError::CellOccupied)
                &&& final(self).grid() == old(self).grid()
                &&& final(self).player() == old(self).player()
            },
            Self::in_bounds(row as int, col as int) && old(self).grid()[Self::idx(
                row as int,
                col as int,
            )] is None ==> {
                &&& r == Ok::<(), MoveError>(())
                &&& final(self).grid() == old(self).grid().update(
                    Self::idx(row as int, col as int),
                    Some(old(self).player()),
                )
                &&& final(self).player() == old(self).player().spec_other()
            },
    {
        if row >= 3 || col >= 3 {
            return Err(MoveError::OutOfBounds);
        }
        let i = row * 3 + col;
        if self.board[i].is_some() {
            return Err(MoveError::CellOccupied);
        }
        let mover = self.current_player;
        proof {
            lemma_count_update(self.grid(), Self::idx(row as int, col as int), mover, Player::X);
            lemma_count_update(self.grid(), Self::idx(row as int, col as int), mover, Player::O);
        }
        self.board.set(i, Some(mover));
        self.current_player = mover.other();
        Ok(())
    }

    /// The player whose turn it is.
    pub fn active_player(&self) -> (p: Player)
        ensures
            p == self.player(),
    {
        self.current_player
    }
}

/// The three cells at positions `a`, `b`, `c` are all marked with `p`.
pub open spec fn line_marked(g: Seq<Option<Player>>, a: int, b: int, c: int, p: Player) -> bool {
    g[a] == Some(p) && g[b] == Some(p) && g[c] == Some(p)
}

/// Some row, column, or diagonal of the grid is fully marked with `p`.
pub open spec fn line_won(g: Seq<Option<Player>>, p: Player) -> bool {
    ||| line_marked(g, 0, 1, 2, p)
    ||| line_marked(g, 3, 4, 5, p)
    ||| line_marked(g, 6, 7, 8, p)
    ||| line_marked(g, 0, 3, 6, p)
    ||| line_marked(g, 1, 4, 7, p)
    ||| line_marked(g, 2, 5, 8, p)
    ||| line_marked(g, 0, 4, 8, p)
    ||| line_marked(g, 2, 4, 6, p)
}

/// Every cell of the grid is marked.
pub open spec fn grid_full(g: Seq<Option<Player>>) -> bool {
    forall|i: int| 0 <= i < g.len() ==> g[i] is Some
}

impl Game {
    /// The player, if any, marked on all three cells at positions `a`, `b`, `c`.
    fn line_winner(&self, a: usize, b: usize, c: usize) -> (r: Option<Player>)
        requires
            self.wf(),
            a < 9 && b < 9 && c < 9,
        ensures
            match r {
                Some(p) => line_marked(self.grid(), a as int, b as int, c as int, p),
                None => forall|p: Player|
                    !line_marked(self.grid(), a as int, b as int, c as int, p),
            },
    {
        match (self.board[a], self.board[b], self.board[c]) {
            (Some(pa), Some(pb), Some(pc)) => if pa == pb && pa == pc {
                Some(pa)
            } else {
                None
            },
            _ => None,
        }
    }

    /// Scans the three rows top to bottom, then the three columns left to
    /// right, then the two diagonals, and returns the player of the first
    /// fully marked line, or `None` when no line is fully marked.
    ///
    /// In a correctly driven game at most one player can hold a complete
    /// line, and then the result is `Some` of exactly that player; the
    /// final clause states this whenever the two players do not both hold
    /// complete lines.
    pub fn check_winner(&self) -> (r: Option<Player>)
        requires
            self.wf(),
        ensures
            r is None <==> !line_won(self.grid(), Player::X) && !line_won(
                self.grid(),
                Player::O,
            ),
            forall|p: Player| r == Some(p) ==> line_won(self.grid(), p),
            !(line_won(self.grid(), Player::X) && line_won(self.grid(), Player::O))
                ==> forall|p: Player| r == Some(p) <==> line_won(self.grid(), p),
    {
        if let Some(p) = self.line_winner(0, 1, 2) {
            return Some(p);
        }
        if let Some(p) = self.line_winner(3, 4, 5) {
            return Some(p);
        }
        if let Some(p) = self.line_winner(6, 7, 8) {
            return Some(p);
        }
        if let Some(p) = self.line_winner(0, 3, 6) {
            return Some(p);
        }
        if let Some(p) = self.line_winner(1, 4, 7) {
            return Some(p);
        }
        if let Some(p) = self.line_winner(2, 5, 8) {
            return Some(p);
        }
        if let Some(p) = self.line_winner(0, 4, 8) {
            return Some(p);
        }
        if let Some(p) = self.line_winner(2, 4, 6) {
            return Some(p);
        }
        None
    }

    /// True exactly when all nine cells are marked. A full grid may still
    /// hold a winning line, so a driver checks `check_winner` first.
    pub fn check_draw(&self) -> (r: bool)
        requires
            self.wf(),
        ensures
            r <==> grid_full(self.grid()),
    {
        let mut i: usize = 0;
        while i < 9
            invariant
                self.wf(),
                i <= 9,
                forall|j: int| 0 <= j < i ==> self.grid()[j] is Some,
            decreases 9 - i,
        {
            if self.board[i].is_none() {
                return false;
            }
            i = i + 1;
        }
        true
    }
}

/// The character shown for a cell: a blank when empty, else the player's mark.
pub open spec fn cell_char(c: Option<Player>) -> char {
    match c {
        None => ' ',
        Some(Player::X) => 'X',
        Some(Player::O) => 'O',
    }
}

/// The text of grid row `r`: its three cells separated by `" | "`, then a newline.
pub open spec fn row_text(g: Seq<Option<Player>>, r: int) -> Seq<char> {
    seq![
        cell_char(g[r * 3]),
        ' ',
        '|',
        ' ',
        cell_char(g[r * 3 + 1]),
        ' ',
        '|',
        ' ',
        cell_char(g[r * 3 + 2]),
        '\n',
    ]
}

/// The separator line printed after each row: nine dashes and a newline.
pub open spec fn separator_text() -> Seq<char> {
    seq!['-', '-', '-', '-', '-', '-', '-', '-', '-', '\n']
}

/// The full rendering of a grid: each of the three rows followed by a
/// separator line.
pub open spec fn render_text(g: Seq<Option<Player>>) -> Seq<char> {
    row_text(g, 0) + separator_text() + row_text(g, 1) + separator_text() + row_text(g, 2)
        + separator_text()
}

/// The one-character text shown for a cell.
fn cell_str(c: Option<Player>) -> (r: &'static str)
    ensures
        r@ == seq![cell_char(c)],
{
    match c {
        None => {
            let s = " ";
            proof {
                reveal_strlit(" ");
                assert(s@ =~= seq![cell_char(c)]);
            }
            s
        },
        Some(Player::X) => {
            let s = "X";
            proof {
                reveal_strlit("X");
                assert(s@ =~= seq![cell_char(c)]);
            }
            s
        },
        Some(Player::O) => {
            let s = "O";
            proof {
                reveal_strlit("O");
                assert(s@ =~= seq![cell_char(c)]);
            }
            s
        },
    }
}

impl Game {
    /// Appends row `r` of the grid and a separator line to `out`.
    fn push_row(&self, out: &mut String, r: usize)
        requires
            self.wf(),
            r < 3,
        ensures
            final(out)@ == old(out)@ + row_text(self.grid(), r as int) + separator_text(),
    {
        out.append(cell_str(self.board[r * 3]));
        out.append(" | ");
        out.append(cell_str(self.board[r * 3 + 1]));
        out.append(" | ");
        out.append(cell_str(self.board[r * 3 + 2]));
        out.append("\n");
        out.append("---------\n");
        proof {
            reveal_strlit(" | ");
            reveal_strlit("\n");
            reveal_strlit("---------\n");
            assert(out@ =~= old(out)@ + row_text(self.grid(), r as int) + separator_text());
        }
    }

    /// Renders the grid as three rows of cells separated by `" | "`, each
    /// row followed by a separator line of nine dashes.
    pub fn render(&self) -> (s: String)
        requires
            self.wf(),
        ensures
            s@ == render_text(self.grid()),
    {
        let mut s = String::new();
        self.push_row(&mut s, 0);
        self.push_row(&mut s, 1);
        self.push_row(&mut s, 2);
        proof {
            assert(s@ =~= render_text(self.grid()));
        }
        s
    }
}

/// In a well-formed game, X has marked either exactly as many cells as O
/// or exactly one more: whatever valid moves were played, the difference
/// of the two counts is always 0 or 1.
pub proof fn lemma_mark_balance(g: Game)
    requires
        g.wf(),
    ensures
        count_marks(g.grid(), Player::X) == count_marks(g.grid(), Player::O) || count_marks(
            g.grid(),
            Player::X,
        ) == count_marks(g.grid(), Player::O) + 1,
{
}

/// Marking an empty cell with `p` raises `p`'s count by one and leaves the
/// other player's count unchanged.
proof fn lemma_count_update(g: Seq<Option<Player>>, i: int, p: Player, q: Player)
    requires
        0 <= i < g.len(),
        g[i] is None,
    ensures
        count_marks(g.update(i, Some(p)), q) == count_marks(g, q) + if p == q {
            1nat
        } else {
            0nat
        },
    decreases g.len(),
{
    let u = g.update(i, Some(p));
    if i == g.len() - 1 {
        assert(u.drop_last() =~= g.drop_last());
    } else {
        assert(u.drop_last() =~= g.drop_last().update(i, Some(p)));
        lemma_count_update(g.drop_last(), i, p, q);
    }
}

/// A grid with no marked cell has no marks of any player.
proof fn lemma_count_all_empty(g: Seq<Option<Player>>, p: Player)
    requires
        forall|i: int| 0 <= i < g.len() ==> g[i] is None,
    ensures
        count_marks(g, p) == 0,
    decreases g.len(),
{
    if g.len() > 0 {
        lemma_count_all_empty(g.drop_last(), p);
    }
}

} // verus!
