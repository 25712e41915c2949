//! Laws of the board game, stated over grids as sequences of tiles.

use vstd::prelude::*;
use crate::day_twelve::{
    Tile, Team, State, PlacementError, cell, empty_grid, grid_ok, lowest_empty_from,
    landing_row, column_full, drop_tile, play, line_cell, owns_line, has_line, holds, taken,
    tile_count, placed_count, classify, team_tile, status_text, board_text, rows_text,
    walls_text,
};

verus! {

/// Replacing one item changes the number of items that pass a test by what
/// the old and the new item contribute.
pub proof fn lemma_filter_len_update<A>(s: Seq<A>, i: int, v: A, pred: spec_fn(A) -> bool)
    requires
        0 <= i < s.len(),
    ensures
        s.update(i, v).filter(pred).len() + (if pred(s[i]) { 1nat } else { 0nat })
            == s.filter(pred).len() + (if pred(v) { 1nat } else { 0nat }),
    decreases s.len(),
{
    reveal(Seq::filter);
    let t = s.update(i, v);
    if i == s.len() - 1 {
        assert(t.drop_last() =~= s.drop_last());
    } else {
        assert(t.drop_last() =~= s.drop_last().update(i, v));
        lemma_filter_len_update(s.drop_last(), i, v, pred);
    }
}

/// A test that every item passes keeps them all; one that no item passes
/// keeps none; and only then.
pub proof fn lemma_filter_len_extremes<A>(s: Seq<A>, pred: spec_fn(A) -> bool)
    ensures
        s.filter(pred).len() <= s.len(),
        s.filter(pred).len() == s.len() <==> (forall|i: int| 0 <= i < s.len() ==> pred(s[i])),
        s.filter(pred).len() == 0 <==> (forall|i: int| 0 <= i < s.len() ==> !pred(s[i])),
    decreases s.len(),
{
    reveal(Seq::filter);
    if s.len() > 0 {
        let r = s.drop_last();
        lemma_filter_len_extremes(r, pred);
        assert(forall|i: int| 0 <= i < r.len() ==> r[i] == s[i]);
        if forall|i: int| 0 <= i < s.len() ==> pred(s[i]) {
            assert(forall|i: int| 0 <= i < r.len() ==> pred(r[i]));
        }
        if forall|i: int| 0 <= i < s.len() ==> !pred(s[i]) {
            assert(forall|i: int| 0 <= i < r.len() ==> !pred(r[i]));
        }
        if s.filter(pred).len() == s.len() {
            assert(pred(s.last()));
            assert forall|i: int| 0 <= i < s.len() implies pred(s[i]) by {
                if i < r.len() {
                    assert(pred(r[i]));
                }
            }
        }
        if s.filter(pred).len() == 0 {
            assert(!pred(s.last()));
            assert forall|i: int| 0 <= i < s.len() implies !pred(s[i]) by {
                if i < r.len() {
                    assert(!pred(r[i]));
                }
            }
        }
    }
}

/// The landing row of a column is its lowest empty cell, and there is none
/// exactly when the column is full.
pub proof fn lemma_landing_row(cells: Seq<Tile>, column: int)
    ensures
        -1 <= landing_row(cells, column) < 4,
        landing_row(cells, column) == -1 <==> column_full(cells, column),
        landing_row(cells, column) >= 0 ==> cell(cells, landing_row(cells, column), column)
            == Tile::Empty,
        forall|row: int|
            landing_row(cells, column) < row < 4 ==> #[trigger] cell(cells, row, column)
                != Tile::Empty,
{
    reveal_with_fuel(lowest_empty_from, 5);
    if landing_row(cells, column) == -1 {
        assert(cell(cells, 0, column) != Tile::Empty);
        assert(cell(cells, 1, column) != Tile::Empty);
        assert(cell(cells, 2, column) != Tile::Empty);
        assert(cell(cells, 3, column) != Tile::Empty);
    }
    if column_full(cells, column) {
        assert(cell(cells, 0, column) != Tile::Empty);
        assert(cell(cells, 1, column) != Tile::Empty);
        assert(cell(cells, 2, column) != Tile::Empty);
        assert(cell(cells, 3, column) != Tile::Empty);
    }
}

/// A column outside 1 to 4 is refused as out of range, whatever the grid
/// holds.
pub proof fn lemma_out_of_range(cells: Seq<Tile>, team: Team, column: int)
    requires
        column < 1 || column > 4,
    ensures
        drop_tile(cells, team, column) == Err::<Seq<Tile>, PlacementError>(
            PlacementError::OutOfRange,
        ),
{
}

/// A full column takes no tile.
pub proof fn lemma_full_column(cells: Seq<Tile>, team: Team, column: int)
    requires
        1 <= column <= 4,
        column_full(cells, column - 1),
    ensures
        drop_tile(cells, team, column) == Err::<Seq<Tile>, PlacementError>(
            PlacementError::ColumnFull,
        ),
{
    lemma_landing_row(cells, column - 1);
}

/// A tile is accepted exactly when the column exists and has an empty cell.
/// It then takes the lowest empty cell of that column: that cell turns from
/// empty into the team's tile and every other cell stays as it was.
pub proof fn lemma_drop_changes_one_cell(cells: Seq<Tile>, team: Team, column: int)
    requires
        grid_ok(cells),
    ensures
        drop_tile(cells, team, column) is Ok <==> 1 <= column <= 4 && !column_full(
            cells,
            column - 1,
        ),
        drop_tile(cells, team, column) matches Ok(after) ==> {
            let row = landing_row(cells, column - 1);
            &&& grid_ok(after)
            &&& 0 <= row < 4
            &&& cell(cells, row, column - 1) == Tile::Empty
            &&& cell(after, row, column - 1) == team_tile(team)
            &&& forall|i: int| 0 <= i < 16 && i != row * 4 + column - 1 ==> after[i] == cells[i]
            &&& placed_count(after) == placed_count(cells) + 1
            &&& tile_count(after, team_tile(team)) == tile_count(cells, team_tile(team)) + 1
        },
{
    if 1 <= column <= 4 {
        lemma_landing_row(cells, column - 1);
        let row = landing_row(cells, column - 1);
        if row >= 0 {
            let i = row * 4 + column - 1;
            lemma_filter_len_update(cells, i, team_tile(team), taken());
            lemma_filter_len_update(cells, i, team_tile(team), holds(team_tile(team)));
        }
    }
}

/// No cell is empty.
pub open spec fn grid_full(cells: Seq<Tile>) -> bool {
    forall|i: int| 0 <= i < cells.len() ==> cells[i] != Tile::Empty
}

/// Sixteen tiles have been placed exactly when no cell is empty.
pub proof fn lemma_full_grid(cells: Seq<Tile>)
    requires
        cells.len() == 16,
    ensures
        placed_count(cells) <= 16,
        placed_count(cells) == 16 <==> grid_full(cells),
{
    lemma_filter_len_extremes(cells, taken());
}

/// Winning line `column`, for a column from 0 to 3, is that column of the
/// grid.
pub proof fn lemma_column_line(cells: Seq<Tile>, tile: Tile, column: int)
    requires
        0 <= column < 4,
    ensures
        owns_line(cells, tile, column) <==> (forall|row: int|
            0 <= row < 4 ==> #[trigger] cell(cells, row, column) == tile),
{
    if owns_line(cells, tile, column) {
        assert forall|row: int| 0 <= row < 4 implies #[trigger] cell(cells, row, column)
            == tile by {
            assert(line_cell(column, row) == row * 4 + column);
        }
    }
    if forall|row: int| 0 <= row < 4 ==> #[trigger] cell(cells, row, column) == tile {
        assert forall|k: int| 0 <= k < 4 implies cells[#[trigger] line_cell(column, k)]
            == tile by {
            assert(cell(cells, k, column) == tile);
        }
    }
}

/// Winning line `4 + row`, for a row from 0 to 3, is that row of the grid.
pub proof fn lemma_row_line(cells: Seq<Tile>, tile: Tile, row: int)
    requires
        0 <= row < 4,
    ensures
        owns_line(cells, tile, 4 + row) <==> (forall|column: int|
            0 <= column < 4 ==> #[trigger] cell(cells, row, column) == tile),
{
    if owns_line(cells, tile, 4 + row) {
        assert forall|column: int| 0 <= column < 4 implies #[trigger] cell(cells, row, column)
            == tile by {
            assert(line_cell(4 + row, column) == row * 4 + column);
        }
    }
    if forall|column: int| 0 <= column < 4 ==> #[trigger] cell(cells, row, column) == tile {
        assert forall|k: int| 0 <= k < 4 implies cells[#[trigger] line_cell(4 + row, k)]
            == tile by {
            assert(cell(cells, row, k) == tile);
        }
    }
}

/// Winning lines 8 and 9 are the two diagonals of the grid.
pub proof fn lemma_diagonal_lines(cells: Seq<Tile>, tile: Tile)
    ensures
        owns_line(cells, tile, 8) <==> (forall|k: int|
            0 <= k < 4 ==> #[trigger] cell(cells, k, k) == tile),
        owns_line(cells, tile, 9) <==> {
            &&& cell(cells, 0, 3) == tile
            &&& cell(cells, 1, 2) == tile
            &&& cell(cells, 2, 1) == tile
            &&& cell(cells, 3, 0) == tile
        },
{
    if owns_line(cells, tile, 8) {
        assert forall|k: int| 0 <= k < 4 implies #[trigger] cell(cells, k, k) == tile by {
            assert(line_cell(8, k) == k * 4 + k);
        }
    }
    if forall|k: int| 0 <= k < 4 ==> #[trigger] cell(cells, k, k) == tile {
        assert forall|k: int| 0 <= k < 4 implies cells[#[trigger] line_cell(8, k)] == tile by {
            assert(cell(cells, k, k) == tile);
        }
    }
    if owns_line(cells, tile, 9) {
        assert(line_cell(9, 0) == 3 && line_cell(9, 1) == 6 && line_cell(9, 2) == 9 && line_cell(
            9,
            3,
        ) == 12);
    }
}

/// An empty grid is an open game, drawn without a status line.
pub proof fn lemma_empty_grid()
    ensures
        grid_ok(empty_grid()),
        placed_count(empty_grid()) == 0,
        classify(empty_grid()) == State::Incomplete,
        board_text(empty_grid()) == rows_text(empty_grid(), 4) + (walls_text(6) + "\n"@),
{
    let cells = empty_grid();
    lemma_filter_len_extremes(cells, taken());
    assert forall|line: int| 0 <= line < 10 implies !#[trigger] owns_line(
        cells,
        Tile::Cookie,
        line,
    ) by {
        assert(0 <= line_cell(line, 0) < 16);
    }
    assert forall|line: int| 0 <= line < 10 implies !#[trigger] owns_line(
        cells,
        Tile::Milk,
        line,
    ) by {
        assert(0 <= line_cell(line, 0) < 16);
    }
    assert(status_text(State::Incomplete) =~= Seq::empty());
    assert(board_text(cells) =~= rows_text(cells, 4) + (walls_text(6) + "\n"@));
}

/// A move is refused as decided exactly when the game is won or drawn,
/// whatever the team and the column; an open game takes the tile as a plain
/// drop does.
pub proof fn lemma_decided_game(cells: Seq<Tile>, team: Team, column: int)
    ensures
        classify(cells) != State::Incomplete <==> play(cells, team, column) == Err::<
            Seq<Tile>,
            PlacementError,
        >(PlacementError::GameDecided),
        classify(cells) == State::Incomplete ==> play(cells, team, column) == drop_tile(
            cells,
            team,
            column,
        ),
{
}

/// A team that owns a line alone has won; two owners or a full grid without
/// an owner make a draw; anything else is an open game.
pub proof fn lemma_classify(cells: Seq<Tile>)
    requires
        cells.len() == 16,
    ensures
        classify(cells) == State::Cookie <==> has_line(cells, Tile::Cookie) && !has_line(
            cells,
            Tile::Milk,
        ),
        classify(cells) == State::Milk <==> has_line(cells, Tile::Milk) && !has_line(
            cells,
            Tile::Cookie,
        ),
        classify(cells) == State::Draw <==> (has_line(cells, Tile::Milk) && has_line(
            cells,
            Tile::Cookie,
        )) || (!has_line(cells, Tile::Milk) && !has_line(cells, Tile::Cookie) && grid_full(
            cells,
        )),
        classify(cells) == State::Incomplete <==> !has_line(cells, Tile::Milk) && !has_line(
            cells,
            Tile::Cookie,
        ) && !grid_full(cells),
{
    lemma_full_grid(cells);
}

/// Asking for the state of a game is repeatable: two answers about the same
/// grid agree, whether or not the board was drawn in between, since both the
/// state and the drawing are read off the cells alone.
pub proof fn lemma_state_is_repeatable(
    cells: Seq<Tile>,
    first: State,
    drawing: Seq<char>,
    second: State,
)
    requires
        first == classify(cells),
        drawing == board_text(cells),
        second == classify(cells),
    ensures
        first == second,
        status_text(second) == status_text(first),
        drawing == rows_text(cells, 4) + (walls_text(6) + "\n"@) + status_text(second),
{
}

/// The grid after a run of moves, each a team and a column counted from 1. A
/// move that is refused leaves the grid as it was.
pub open spec fn after_moves(start: Seq<Tile>, moves: Seq<(Team, int)>) -> Seq<Tile>
    decreases moves.len(),
{
    if moves.len() == 0 {
        start
    } else {
        let before = after_moves(start, moves.drop_last());
        match drop_tile(before, moves.last().0, moves.last().1) {
            Ok(cells) => cells,
            Err(_) => before,
        }
    }
}

/// Every move of the run is accepted.
pub open spec fn moves_accepted(start: Seq<Tile>, moves: Seq<(Team, int)>) -> bool
    decreases moves.len(),
{
    moves.len() == 0 || {
        &&& moves_accepted(start, moves.drop_last())
        &&& drop_tile(after_moves(start, moves.drop_last()), moves.last().0, moves.last().1) is Ok
    }
}

/// The test for a move of `team`.
pub open spec fn by_team(team: Team) -> spec_fn((Team, int)) -> bool {
    |m: (Team, int)| m.0 == team
}

/// No run of moves puts a wall on the grid.
pub proof fn lemma_moves_keep_grid(start: Seq<Tile>, moves: Seq<(Team, int)>)
    requires
        grid_ok(start),
    ensures
        grid_ok(after_moves(start, moves)),
    decreases moves.len(),
{
    if moves.len() > 0 {
        lemma_moves_keep_grid(start, moves.drop_last());
        lemma_drop_changes_one_cell(
            after_moves(start, moves.drop_last()),
            moves.last().0,
            moves.last().1,
        );
    }
}

/// After a run of accepted moves on an empty grid, the grid holds one tile of
/// a team for each move of that team, no wall, and empty cells for the rest.
pub proof fn lemma_grid_holds_what_was_placed(moves: Seq<(Team, int)>)
    requires
        moves_accepted(empty_grid(), moves),
    ensures
        grid_ok(after_moves(empty_grid(), moves)),
        tile_count(after_moves(empty_grid(), moves), Tile::Milk) == moves.filter(
            by_team(Team::Milk),
        ).len(),
        tile_count(after_moves(empty_grid(), moves), Tile::Cookie) == moves.filter(
            by_team(Team::Cookie),
        ).len(),
        tile_count(after_moves(empty_grid(), moves), Tile::Wall) == 0,
        tile_count(after_moves(empty_grid(), moves), Tile::Empty) + moves.len() == 16,
        placed_count(after_moves(empty_grid(), moves)) == moves.len(),
    decreases moves.len(),
{
    reveal(Seq::filter);
    if moves.len() == 0 {
        let cells = empty_grid();
        lemma_filter_len_extremes(cells, holds(Tile::Milk));
        lemma_filter_len_extremes(cells, holds(Tile::Cookie));
        lemma_filter_len_extremes(cells, holds(Tile::Wall));
        lemma_filter_len_extremes(cells, holds(Tile::Empty));
        lemma_filter_len_extremes(cells, taken());
    } else {
        let rest = moves.drop_last();
        let team = moves.last().0;
        let column = moves.last().1;
        let before = after_moves(empty_grid(), rest);
        lemma_grid_holds_what_was_placed(rest);
        lemma_landing_row(before, column - 1);
        let i = landing_row(before, column - 1) * 4 + column - 1;
        lemma_filter_len_update(before, i, team_tile(team), holds(Tile::Milk));
        lemma_filter_len_update(before, i, team_tile(team), holds(Tile::Cookie));
        lemma_filter_len_update(before, i, team_tile(team), holds(Tile::Wall));
        lemma_filter_len_update(before, i, team_tile(team), holds(Tile::Empty));
        lemma_filter_len_update(before, i, team_tile(team), taken());
        lemma_moves_keep_grid(empty_grid(), moves);
    }
}

/// The grid after a run of moves played by the rules: once the game is
/// decided, no move is accepted any more.
pub open spec fn after_play(start: Seq<Tile>, moves: Seq<(Team, int)>) -> Seq<Tile>
    decreases moves.len(),
{
    if moves.len() == 0 {
        start
    } else {
        let before = after_play(start, moves.drop_last());
        match play(before, moves.last().0, moves.last().1) {
            Ok(cells) => cells,
            Err(_) => before,
        }
    }
}

/// A tile that is dropped completes no line of any other tile.
pub proof fn lemma_drop_gives_others_no_line(
    cells: Seq<Tile>,
    team: Team,
    column: int,
    tile: Tile,
    line: int,
)
    requires
        grid_ok(cells),
        drop_tile(cells, team, column) is Ok,
        tile != team_tile(team),
        0 <= line < 10,
        owns_line(drop_tile(cells, team, column)->Ok_0, tile, line),
    ensures
        owns_line(cells, tile, line),
{
    let after = drop_tile(cells, team, column)->Ok_0;
    lemma_drop_changes_one_cell(cells, team, column);
    let changed = landing_row(cells, column - 1) * 4 + column - 1;
    assert(after[changed] == team_tile(team)) by {
        assert(cell(after, landing_row(cells, column - 1), column - 1) == team_tile(team));
    }
    assert forall|k: int| 0 <= k < 4 implies cells[#[trigger] line_cell(line, k)] == tile by {
        let i = line_cell(line, k);
        assert(0 <= i < 16);
        assert(after[i] == tile);
    }
}

/// The state in which `team` has won.
pub open spec fn won_by(team: Team) -> State {
    match team {
        Team::Milk => State::Milk,
        Team::Cookie => State::Cookie,
    }
}

/// A move in an open game leaves the game open, wins it for the team that
/// moved, or fills the grid to a draw: it never wins it for the other team.
pub proof fn lemma_move_wins_for_mover_only(cells: Seq<Tile>, team: Team, column: int)
    requires
        grid_ok(cells),
        play(cells, team, column) is Ok,
    ensures
        ({
            let state = classify(play(cells, team, column)->Ok_0);
            state == State::Incomplete || state == won_by(team) || (state == State::Draw
                && placed_count(cells) == 15)
        }),
{
    let after = play(cells, team, column)->Ok_0;
    lemma_drop_changes_one_cell(cells, team, column);
    let other = match team {
        Team::Milk => Tile::Cookie,
        Team::Cookie => Tile::Milk,
    };
    if has_line(after, other) {
        let line = choose|line: int| 0 <= line < 10 && #[trigger] owns_line(after, other, line);
        lemma_drop_gives_others_no_line(cells, team, column, other, line);
        assert(has_line(cells, other));
    }
}

/// Played by the rules from an empty grid, a game never shows lines of both
/// teams at once: the draw that such a grid is classified as arises from a
/// full grid only.
pub proof fn lemma_play_has_one_winner(moves: Seq<(Team, int)>)
    ensures
        grid_ok(after_play(empty_grid(), moves)),
        !(has_line(after_play(empty_grid(), moves), Tile::Milk) && has_line(
            after_play(empty_grid(), moves),
            Tile::Cookie,
        )),
    decreases moves.len(),
{
    if moves.len() == 0 {
        lemma_empty_grid();
    } else {
        let before = after_play(empty_grid(), moves.drop_last());
        let team = moves.last().0;
        let column = moves.last().1;
        lemma_play_has_one_winner(moves.drop_last());
        if play(before, team, column) is Ok {
            let after = play(before, team, column)->Ok_0;
            assert(classify(before) == State::Incomplete);
            assert(drop_tile(before, team, column) == play(before, team, column));
            lemma_drop_changes_one_cell(before, team, column);
            let other = match team {
                Team::Milk => Tile::Cookie,
                Team::Cookie => Tile::Milk,
            };
            if has_line(after, other) {
                let line = choose|line: int|
                    0 <= line < 10 && #[trigger] owns_line(after, other, line);
                lemma_drop_gives_others_no_line(before, team, column, other, line);
                assert(has_line(before, other));
            }
        }
    }
}

/// Tiles rest on tiles: no empty cell lies under a tile.
pub open spec fn settled(cells: Seq<Tile>) -> bool {
    forall|column: int, upper: int, lower: int|
        0 <= column < 4 && 0 <= upper < lower < 4 && #[trigger] cell(cells, upper, column)
            != Tile::Empty ==> #[trigger] cell(cells, lower, column) != Tile::Empty
}

/// A dropped tile comes to rest on the floor or on a tile.
pub proof fn lemma_drop_keeps_settled(cells: Seq<Tile>, team: Team, column: int)
    requires
        grid_ok(cells),
        settled(cells),
        drop_tile(cells, team, column) is Ok,
    ensures
        settled(drop_tile(cells, team, column)->Ok_0),
{
    let after = drop_tile(cells, team, column)->Ok_0;
    let r = landing_row(cells, column - 1);
    let c = column - 1;
    lemma_landing_row(cells, c);
    assert forall|col: int, upper: int, lower: int|
        0 <= col < 4 && 0 <= upper < lower < 4 && #[trigger] cell(after, upper, col)
            != Tile::Empty implies #[trigger] cell(after, lower, col) != Tile::Empty by {
        if upper == r && col == c {
            assert(cell(cells, lower, c) != Tile::Empty);
        } else {
            assert(cell(cells, upper, col) != Tile::Empty);
            assert(cell(cells, lower, col) != Tile::Empty);
        }
    }
}

/// Every grid that moves lead to from an empty grid is settled.
pub proof fn lemma_moves_keep_settled(moves: Seq<(Team, int)>)
    ensures
        grid_ok(after_moves(empty_grid(), moves)),
        settled(after_moves(empty_grid(), moves)),
    decreases moves.len(),
{
    lemma_moves_keep_grid(empty_grid(), moves);
    if moves.len() > 0 {
        let before = after_moves(empty_grid(), moves.drop_last());
        lemma_moves_keep_settled(moves.drop_last());
        if drop_tile(before, moves.last().0, moves.last().1) is Ok {
            lemma_drop_keeps_settled(before, moves.last().0, moves.last().1);
        }
    }
}

} // verus!
