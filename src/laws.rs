//! Facts about moves and outcomes, stated over the spec functions that the
//! contracts of `Game::choose_field` and `Game::check_winner` use.
use crate::game::{anti_diag_sum, axis_sum, hits, is_full, normalized, placed, wins, straight_line_won, occupied};
use crate::grid::{abs, col_sum, is_board, main_diag_sum, row_sum};
use vstd::prelude::*;

verus! {

/// Line `l` of the board as its three cells: rows for `l` in `0..3`,
/// columns for `l` in `3..6`, the main diagonal for `6` and the
/// anti-diagonal for `7`.
pub open spec fn line(g: Seq<Seq<i32>>, l: int) -> Seq<i32> {
    if 0 <= l < 3 {
        seq![g[l][0], g[l][1], g[l][2]]
    } else if 3 <= l < 6 {
        seq![g[0][l - 3], g[1][l - 3], g[2][l - 3]]
    } else if l == 6 {
        seq![g[0][0], g[1][1], g[2][2]]
    } else {
        seq![g[0][2], g[1][1], g[2][0]]
    }
}

/// The three cells of a line all hold the same value.
pub open spec fn uniform(c: Seq<i32>) -> bool {
    c[0] == c[1] && c[1] == c[2]
}

/// The sum of the three cells of a line.
pub open spec fn line_sum(c: Seq<i32>) -> int {
    c[0] + c[1] + c[2]
}

/// A move on an empty cell succeeds and leaves the mover's marker there;
/// a second move on that cell, by either player, is refused.
pub proof fn lemma_place_then_occupied(g: Seq<Seq<i32>>, x: int, y: int, m: i32, m2: i32)
    requires
        is_board(g),
        0 <= x < 3,
        0 <= y < 3,
        g[x][y] == 0,
    ensures
        placed(g, x, y, m) is Some,
        placed(g, x, y, m)->0[x][y] == normalized(m),
        placed(placed(g, x, y, m)->0, x, y, m2) is None,
{
}

/// A move changes the one cell it names, and only where that cell was
/// empty: a marked cell is never cleared or marked again.
pub proof fn lemma_marks_are_kept(g: Seq<Seq<i32>>, x: int, y: int, m: i32)
    requires
        is_board(g),
        0 <= x < 3,
        0 <= y < 3,
    ensures
        placed(g, x, y, m) matches Some(b) ==> {
            &&& g[x][y] == 0
            &&& forall|i: int, j: int|
                0 <= i < 3 && 0 <= j < 3 && (i != x || j != y) ==> #[trigger] b[i][j] == g[i][j]
        },
{
}

/// A top row filled with `1` is a win for the mover of `1`.
pub proof fn lemma_top_row_wins(g: Seq<Seq<i32>>)
    requires
        is_board(g),
        g[0][0] == 1,
        g[0][1] == 1,
        g[0][2] == 1,
    ensures
        wins(g, 1),
{
    assert(axis_sum(g, 1, 0) == 3);
    assert(hits(axis_sum(g, 1, 0), 1));
}

/// A main diagonal filled with `-1` is a win, whatever the mover's marker.
pub proof fn lemma_main_diagonal_wins(g: Seq<Seq<i32>>, marker: int)
    requires
        is_board(g),
        g[0][0] == -1,
        g[1][1] == -1,
        g[2][2] == -1,
    ensures
        wins(g, marker),
{
    assert(abs(main_diag_sum(g)) == 3);
}

/// On a board whose lines each hold an empty cell, no line sum reaches
/// three in magnitude.
proof fn lemma_open_lines_short(g: Seq<Seq<i32>>)
    requires
        is_board(g),
        forall|l: int| 0 <= l < 8 ==> #[trigger] line(g, l).contains(0),
    ensures
        forall|l: int| 0 <= l < 8 ==> -2 <= #[trigger] line_sum(line(g, l)) <= 2,
{
    assert forall|l: int| 0 <= l < 8 implies -2 <= #[trigger] line_sum(line(g, l)) <= 2 by {
        let c = line(g, l);
        assert(c.contains(0));
        let k = choose|k: int| 0 <= k < c.len() && c[k] == 0;
        assert(-1 <= c[0] <= 1 && -1 <= c[1] <= 1 && -1 <= c[2] <= 1) by {
            assert(-1 <= g[0][0] <= 1 && -1 <= g[0][1] <= 1 && -1 <= g[0][2] <= 1);
            assert(-1 <= g[1][0] <= 1 && -1 <= g[1][1] <= 1 && -1 <= g[1][2] <= 1);
            assert(-1 <= g[2][0] <= 1 && -1 <= g[2][1] <= 1 && -1 <= g[2][2] <= 1);
        }
        assert(k == 0 || k == 1 || k == 2);
    }
}

/// Each row, column and diagonal sum of a board is the sum of one of its
/// lines.
proof fn lemma_sums_are_lines(g: Seq<Seq<i32>>)
    ensures
        forall|k: int| 0 <= k < 3 ==> #[trigger] row_sum(g, k) == line_sum(line(g, k)),
        forall|k: int| 0 <= k < 3 ==> #[trigger] col_sum(g, k) == line_sum(line(g, k + 3)),
        main_diag_sum(g) == line_sum(line(g, 6)),
        anti_diag_sum(g) == line_sum(line(g, 7)),
{
    assert forall|k: int| 0 <= k < 3 implies #[trigger] col_sum(g, k) == line_sum(line(g, k + 3)) by {
        assert(line(g, k + 3) == seq![g[0][k], g[1][k], g[2][k]]);
    }
}

/// Where every line sum lies in `-2..=2`, the mover of `1` or `-1` does
/// not win.
proof fn lemma_short_lines_no_win(g: Seq<Seq<i32>>, marker: int)
    requires
        marker == 1 || marker == -1,
        forall|l: int| 0 <= l < 8 ==> -2 <= #[trigger] line_sum(line(g, l)) <= 2,
    ensures
        !wins(g, marker),
{
    lemma_sums_are_lines(g);
    assert(line_sum(line(g, 6)) == main_diag_sum(g));
    assert(line_sum(line(g, 7)) == anti_diag_sum(g));
    assert forall|a: int, k: int| 0 <= a < 2 && 0 <= k < 3 implies !#[trigger] hits(axis_sum(g, a, k), marker) by {
        if a == 0 {
            assert(line_sum(line(g, k + 3)) == col_sum(g, k));
        } else {
            assert(line_sum(line(g, k)) == row_sum(g, k));
        }
        assert(-2 <= axis_sum(g, a, k) <= 2);
    }
    assert(!straight_line_won(g, marker));
}

/// A board whose lines each hold an empty cell records neither a win, for
/// either mover, nor a tie.
pub proof fn lemma_open_board_undecided(g: Seq<Seq<i32>>, marker: i32)
    requires
        is_board(g),
        forall|l: int| 0 <= l < 8 ==> #[trigger] line(g, l).contains(0),
    ensures
        !wins(g, normalized(marker) as int),
        !is_full(g),
{
    lemma_open_lines_short(g);
    lemma_short_lines_no_win(g, normalized(marker) as int);
    assert(line(g, 0).contains(0));
    let c = line(g, 0);
    let k = choose|k: int| 0 <= k < c.len() && c[k] == 0;
    assert(k == 0 || k == 1 || k == 2);
    assert(occupied(g) <= 8) by {
        assert(abs(g[1][0] as int) <= 1 && abs(g[1][1] as int) <= 1 && abs(g[1][2] as int) <= 1);
        assert(abs(g[2][0] as int) <= 1 && abs(g[2][1] as int) <= 1 && abs(g[2][2] as int) <= 1);
        assert(abs(g[0][0] as int) <= 1 && abs(g[0][1] as int) <= 1 && abs(g[0][2] as int) <= 1);
    }
}

/// A full board on which no line is held by one marker alone records a tie
/// and no win, for either mover.
pub proof fn lemma_drawn_board(g: Seq<Seq<i32>>, marker: i32)
    requires
        is_board(g),
        forall|i: int, j: int| 0 <= i < 3 && 0 <= j < 3 ==> #[trigger] g[i][j] != 0,
        forall|l: int| 0 <= l < 8 ==> !uniform(#[trigger] line(g, l)),
    ensures
        !wins(g, normalized(marker) as int),
        is_full(g),
{
    assert(g[0][0] != 0 && g[0][1] != 0 && g[0][2] != 0);
    assert(g[1][0] != 0 && g[1][1] != 0 && g[1][2] != 0);
    assert(g[2][0] != 0 && g[2][1] != 0 && g[2][2] != 0);
    assert(-1 <= g[0][0] <= 1 && -1 <= g[0][1] <= 1 && -1 <= g[0][2] <= 1);
    assert(-1 <= g[1][0] <= 1 && -1 <= g[1][1] <= 1 && -1 <= g[1][2] <= 1);
    assert(-1 <= g[2][0] <= 1 && -1 <= g[2][1] <= 1 && -1 <= g[2][2] <= 1);
    assert forall|l: int| 0 <= l < 8 implies -2 <= #[trigger] line_sum(line(g, l)) <= 2 by {
        assert(!uniform(line(g, l)));
    }
    lemma_short_lines_no_win(g, normalized(marker) as int);
}

} // verus!
