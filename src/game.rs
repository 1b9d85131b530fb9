//! The game engine: the board, moves on it, and the detection of a win or a
//! tie.
//!
//! A cell holds `0` while empty, `1` once marked by the player of the `x`
//! marker, and `-1` once marked by the player of the `o` marker.
use crate::grid::{
    abs, col_sum, diag_sum, dot, get_cell, grid_rows, grid_update, is_3x3, is_board,
    magnitudes, main_diag_sum, magnitude, row_sum, set_cell, sum_axis, total, zeros, Grid,
};
use vstd::prelude::*;
use vstd::string::*;

verus! {

/// Why a move was refused.
#[derive(Clone, Copy, Debug, PartialEq, Eq, Structural)]
pub enum MoveError {
    /// The cell already holds a marker.
    CellOccupied,
}

/// The marker written for a player's marker value: `1` stays `1`, and every
/// other value stands for the other player, `-1`.
pub open spec fn normalized(marker: i32) -> i32 {
    if marker == 1 {
        1i32
    } else {
        -1i32
    }
}

/// Every cell empty.
pub open spec fn empty_board() -> Seq<Seq<i32>> {
    Seq::new(3, |i: int| Seq::new(3, |j: int| 0i32))
}

/// The board after a move at (`x`, `y`): `None` where that cell is taken.
pub open spec fn placed(g: Seq<Seq<i32>>, x: int, y: int, marker: i32) -> Option<Seq<Seq<i32>>> {
    if g[x][y] == 0 {
        Some(grid_update(g, x, y, normalized(marker)))
    } else {
        None
    }
}

/// Sum of the anti-diagonal, from the top right to the bottom left.
pub open spec fn anti_diag_sum(g: Seq<Seq<i32>>) -> int {
    g[0][2] + g[1][1] + g[2][0]
}

/// The sum of line `k` along an axis: axis 0 gives the columns, axis 1 the
/// rows.
pub open spec fn axis_sum(g: Seq<Seq<i32>>, axis: int, k: int) -> int {
    if axis == 0 {
        col_sum(g, k)
    } else {
        row_sum(g, k)
    }
}

/// Whether the line sum `s`, scaled by the mover's marker, reaches three.
pub open spec fn hits(s: int, marker: int) -> bool {
    abs(s * marker) == 3
}

/// Some row or column whose sum, scaled by the mover's marker, reaches three.
pub open spec fn straight_line_won(g: Seq<Seq<i32>>, marker: int) -> bool {
    exists|axis: int, k: int|
        0 <= axis < 2 && 0 <= k < 3 && #[trigger] hits(axis_sum(g, axis, k), marker)
}

/// Whether evaluating the board for the mover whose marker is `marker` (`1`
/// or `-1`, as `normalized` gives it) records a win: a row or column as
/// `straight_line_won` says, or either diagonal filled by one marker,
/// whichever it is.
pub open spec fn wins(g: Seq<Seq<i32>>, marker: int) -> bool {
    ||| straight_line_won(g, marker)
    ||| abs(main_diag_sum(g)) == 3
    ||| abs(anti_diag_sum(g)) == 3
}

/// The number of occupied cells, as the sum of the cells' absolute values.
pub open spec fn occupied(g: Seq<Seq<i32>>) -> int {
    abs(g[0][0] as int) + abs(g[0][1] as int) + abs(g[0][2] as int) + abs(g[1][0] as int) + abs(
        g[1][1] as int,
    ) + abs(g[1][2] as int) + abs(g[2][0] as int) + abs(g[2][1] as int) + abs(g[2][2] as int)
}

/// Whether every cell is occupied.
pub open spec fn is_full(g: Seq<Seq<i32>>) -> bool {
    occupied(g) == 9
}

/// The symbol shown for a cell value: `x` for `1`, `o` for `-1`, and a
/// space for anything else.
pub open spec fn symbol(v: i32) -> Seq<char> {
    if v == 1 {
        "x"@
    } else if v == -1 {
        "o"@
    } else {
        " "@
    }
}

/// One rendered row of the board, after its label.
pub open spec fn row_text(g: Seq<Seq<i32>>, i: int, label: Seq<char>) -> Seq<char> {
    label + "|"@ + symbol(g[i][0]) + "|"@ + symbol(g[i][1]) + "|"@ + symbol(g[i][2]) + "|\n"@
}

/// The board as text: a header of column numbers, then each row under a
/// separator, each row led by its number, and a blank line at the end.
pub open spec fn board_text(g: Seq<Seq<i32>>) -> Seq<char> {
    " |0|1|2|\n"@ + "--------\n"@ + row_text(g, 0, "0"@) + "--------\n"@ + row_text(g, 1, "1"@)
        + "--------\n"@ + row_text(g, 2, "2"@) + "--------\n\n"@
}

/// What a turn came to.
#[derive(Clone, Copy, Debug, PartialEq, Eq, Structural)]
pub enum TurnResult {
    /// The cell was taken: the same player moves again.
    Occupied,
    /// The mover has won.
    Won,
    /// The board is full and nobody has won.
    Tie,
    /// The game goes on with the other player.
    Continue,
}

/// A player: a name and a marker value.
pub struct Player {
    pub name: String,
    pub marker: i32,
}

impl Player {
    pub fn new(name: String, marker: i32) -> (p: Player)
        ensures
            p.name@ == name@,
            p.marker == marker,
    {
        Player { name, marker }
    }
}

/// A game: the board and the two outcome flags. Once either flag holds the
/// game is over, and callers make no further moves; where both hold, the
/// win counts.
pub struct Game {
    /// The cells, row by row. A `Grid` offers no operations outside this
    /// crate: the board changes through `choose_field` alone.
    pub fields: Grid,
    /// Set by `check_winner` when the mover has won.
    pub won: bool,
    /// Set by `check_winner` when the board is full.
    pub tie: bool,
    /// Whether player one makes the first move.
    pub player_one_start: bool,
}

impl Game {
    /// The board, row by row.
    pub open spec fn board(&self) -> Seq<Seq<i32>> {
        grid_rows(self.fields)
    }

    /// The board is 3 by 3 and each cell holds `-1`, `0` or `1`.
    pub open spec fn wf(&self) -> bool {
        is_board(self.board())
    }

    /// A game with an empty board, in which nobody has won and no tie is
    /// recorded.
    pub fn new(player_one_start: bool) -> (g: Game)
        ensures
            g.wf(),
            g.board() == empty_board(),
            !g.won,
            !g.tie,
            g.player_one_start == player_one_start,
    {
        let fields = zeros(3, 3);
        let g = Game { fields, won: false, tie: false, player_one_start };
        assert(g.board() =~~= empty_board());
        g
    }

    /// The value held by cell (`x`, `y`).
    pub fn cell(&self, x: usize, y: usize) -> (r: i32)
        requires
            self.wf(),
            x < 3,
            y < 3,
        ensures
            r == self.board()[x as int][y as int],
    {
        get_cell(&self.fields, x, y)
    }

    /// Marks cell (`x`, `y`) for the player of `player_marker` where it is
    /// empty; refuses the move and leaves the board as it was where it is not.
    pub fn choose_field(&mut self, x: usize, y: usize, player_marker: &i32) -> (r: Result<
        (),
        MoveError,
    >)
        requires
            old(self).wf(),
            x < 3,
            y < 3,
        ensures
            final(self).wf(),
            final(self).won == old(self).won,
            final(self).tie == old(self).tie,
            final(self).player_one_start == old(self).player_one_start,
            match placed(old(self).board(), x as int, y as int, *player_marker) {
                Some(b) => r is Ok && final(self).board() == b,
                None => r == Err::<(), MoveError>(MoveError::CellOccupied) && final(self).board()
                    == old(self).board(),
            },
    {
        let marker: i32 = if *player_marker == 1 {
            1
        } else {
            -1
        };
        if get_cell(&self.fields, x, y) == 0 {
            set_cell(&mut self.fields, x, y, marker);
            Ok(())
        } else {
            Err(MoveError::CellOccupied)
        }
    }
    /// The symbol of a cell value, as `symbol` gives it.
    pub fn int_converter(integer: i32) -> (r: String)
        ensures
            r@ == symbol(integer),
    {
        if integer == 1 {
            String::from_str("x")
        } else if integer == -1 {
            String::from_str("o")
        } else {
            String::from_str(" ")
        }
    }

    /// The board as text, as `board_text` gives it.
    pub fn render(&self) -> (r: String)
        requires
            self.wf(),
        ensures
            r@ == board_text(self.board()),
    {
        let mut r = String::from_str(" |0|1|2|\n");
        r.append("--------\n");
        self.append_row(&mut r, 0, "0");
        r.append("--------\n");
        self.append_row(&mut r, 1, "1");
        r.append("--------\n");
        self.append_row(&mut r, 2, "2");
        r.append("--------\n\n");
        r
    }

    fn append_row(&self, out: &mut String, i: usize, label: &str)
        requires
            self.wf(),
            i < 3,
        ensures
            final(out)@ == old(out)@ + row_text(self.board(), i as int, label@),
    {
        out.append(label);
        out.append("|");
        out.append(Game::int_converter(self.cell(i, 0)).as_str());
        out.append("|");
        out.append(Game::int_converter(self.cell(i, 1)).as_str());
        out.append("|");
        out.append(Game::int_converter(self.cell(i, 2)).as_str());
        out.append("|\n");
    }

    /// One turn of the mover of `player_marker` at (`x`, `y`): the move, then,
    /// where it was accepted, the evaluation of the outcome for that mover.
    pub fn play_turn(&mut self, x: usize, y: usize, player_marker: &i32) -> (r: TurnResult)
        requires
            old(self).wf(),
            x < 3,
            y < 3,
        ensures
            final(self).wf(),
            final(self).player_one_start == old(self).player_one_start,
            match placed(old(self).board(), x as int, y as int, *player_marker) {
                None => r == TurnResult::Occupied && final(self).board() == old(self).board()
                    && final(self).won == old(self).won && final(self).tie == old(self).tie,
                Some(b) => {
                    &&& final(self).board() == b
                    &&& final(self).won == (old(self).won || wins(b, normalized(*player_marker) as int))
                    &&& final(self).tie == (old(self).tie || is_full(b))
                    &&& r == if final(self).won {
                        TurnResult::Won
                    } else if final(self).tie {
                        TurnResult::Tie
                    } else {
                        TurnResult::Continue
                    }
                },
            },
    {
        match self.choose_field(x, y, player_marker) {
            Err(_) => TurnResult::Occupied,
            Ok(()) => {
                self.check_winner(player_marker);
                if self.won {
                    TurnResult::Won
                } else if self.tie {
                    TurnResult::Tie
                } else {
                    TurnResult::Continue
                }
            },
        }
    }

    /// Records a win for the mover of `player_marker` (normalized as a move
    /// normalizes it) where `wins` holds of the board, and a tie where the board is full. Each flag only ever
    /// goes from `false` to `true`; the board is not changed.
    pub fn check_winner(&mut self, player_marker: &i32)
        requires
            old(self).wf(),
        ensures
            final(self).wf(),
            final(self).board() == old(self).board(),
            final(self).player_one_start == old(self).player_one_start,
            final(self).won == (old(self).won || wins(old(self).board(), normalized(*player_marker) as int)),
            final(self).tie == (old(self).tie || is_full(old(self).board())),
    {
        let ghost g = self.board();
        let marker: i32 = if *player_marker == 1 {
            1
        } else {
            -1
        };
        let ghost m = marker as int;
        let ghost won0 = self.won;
        let mut axis: usize = 0;
        while axis < 2
            invariant
                0 <= axis <= 2,
                self.board() == g,
                is_board(g),
                self.tie == old(self).tie,
                self.player_one_start == old(self).player_one_start,
                m == marker as int,
                m == 1 || m == -1,
                self.won == (won0 || exists|a: int, k: int|
                    0 <= a < axis && 0 <= k < 3 && #[trigger] hits(axis_sum(g, a, k), m)),
            decreases 2 - axis,
        {
            let sums = sum_axis(&self.fields, axis);
            let mut k: usize = 0;
            while k < 3
                invariant
                    0 <= axis < 2,
                    0 <= k <= 3,
                    self.board() == g,
                    is_board(g),
                    self.tie == old(self).tie,
                    self.player_one_start == old(self).player_one_start,
                    m == marker as int,
                m == 1 || m == -1,
                    sums@.len() == 3,
                    forall|j: int| 0 <= j < 3 ==> #[trigger] sums@[j] == axis_sum(g, axis as int, j),
                    self.won == (won0 || (exists|a: int, kk: int|
                        0 <= a < axis && 0 <= kk < 3 && #[trigger] hits(axis_sum(g, a, kk), m))
                        || (exists|kk: int| 0 <= kk < k && #[trigger] hits(axis_sum(g, axis as int, kk), m))),
                decreases 3 - k,
            {
                let s = sums[k];
                assert(-3 <= s <= 3) by {
                    assert(-1 <= g[0][k as int] <= 1 && -1 <= g[1][k as int] <= 1 && -1 <= g[2][k as int] <= 1);
                    assert(-1 <= g[k as int][0] <= 1 && -1 <= g[k as int][1] <= 1 && -1 <= g[k as int][2] <= 1);
                }
                let scaled: i32 = s * marker;
                if scaled == 3 || scaled == -3 {
                    self.won = true;
                }
                assert(hits(axis_sum(g, axis as int, k as int), m) <==> (scaled == 3 || scaled == -3));
                k += 1;
            }
            axis += 1;
        }
        assert(self.won == (won0 || straight_line_won(g, m)));
        if magnitude(diag_sum(&self.fields)) == 3 {
            self.won = true;
        } else {
            let reverse = anti_identity();
            let flipped = dot(&self.fields, &reverse);
            proof {
                lemma_reflected(g, grid_rows(reverse), grid_rows(flipped));
            }
            if magnitude(diag_sum(&flipped)) == 3 {
                self.won = true;
            }
        }
        let weights = magnitudes(&self.fields);
        if total(&weights) == 9 {
            self.tie = true;
        }
    }
}

/// The 3 by 3 matrix that reverses the order of the columns when a board is
/// multiplied by it on the right.
fn anti_identity() -> (r: Grid)
    ensures
        grid_rows(r) == seq![seq![0i32, 0, 1], seq![0i32, 1, 0], seq![1i32, 0, 0]],
{
    let mut r = zeros(3, 3);
    set_cell(&mut r, 0, 2, 1);
    set_cell(&mut r, 1, 1, 1);
    set_cell(&mut r, 2, 0, 1);
    assert(grid_rows(r) =~~= seq![seq![0i32, 0, 1], seq![0i32, 1, 0], seq![1i32, 0, 0]]);
    r
}

/// A board multiplied on the right by `anti_identity` is the board with its
/// columns reversed: still a board, whose main diagonal is the board's
/// anti-diagonal.
proof fn lemma_reflected(g: Seq<Seq<i32>>, p: Seq<Seq<i32>>, f: Seq<Seq<i32>>)
    requires
        is_board(g),
        p == seq![seq![0i32, 0, 1], seq![0i32, 1, 0], seq![1i32, 0, 0]],
        is_3x3(f),
        forall|i: int, j: int|
            0 <= i < 3 && 0 <= j < 3 ==> #[trigger] f[i][j] == g[i][0] * p[0][j] + g[i][1] * p[1][j]
                + g[i][2] * p[2][j],
    ensures
        forall|i: int, j: int| 0 <= i < 3 && 0 <= j < 3 ==> #[trigger] f[i][j] == g[i][2 - j],
        is_board(f),
        main_diag_sum(f) == anti_diag_sum(g),
{
    assert forall|i: int, j: int| 0 <= i < 3 && 0 <= j < 3 implies #[trigger] f[i][j] == g[i][2 - j] by {
        assert(f[i][j] == g[i][0] * p[0][j] + g[i][1] * p[1][j] + g[i][2] * p[2][j]);
        if j == 0 {
            assert(p[0][0] == 0 && p[1][0] == 0 && p[2][0] == 1);
            assert(f[i][j] == g[i][0] * 0 + g[i][1] * 0 + g[i][2] * 1);
        } else if j == 1 {
            assert(p[0][1] == 0 && p[1][1] == 1 && p[2][1] == 0);
            assert(f[i][j] == g[i][0] * 0 + g[i][1] * 1 + g[i][2] * 0);
        } else {
            assert(p[0][2] == 1 && p[1][2] == 0 && p[2][2] == 0);
            assert(f[i][j] == g[i][0] * 1 + g[i][1] * 0 + g[i][2] * 0);
        }
    }
    assert(f[0][0] == g[0][2]);
    assert(f[1][1] == g[1][1]);
    assert(f[2][2] == g[2][0]);
}

} // verus!
