//! Four-in-a-row on a 4×4 board: tiles drop down a column, and a team wins by
//! owning a whole row, a whole column or one of the two diagonals.

use vstd::prelude::*;
use vstd::string::StringExecFns;
use std::sync::Mutex;

verus! {

/// Contents of one cell. `Wall` is only ever drawn around the grid.
#[derive(Clone, Copy, Debug, PartialEq, Eq, Structural)]
pub enum Tile {
    Empty,
    Wall,
    Milk,
    Cookie,
}

/// One of the two players.
#[derive(Clone, Copy, Debug, PartialEq, Eq, Structural)]
pub enum Team {
    Milk,
    Cookie,
}

/// Classification of a whole board.
#[derive(Clone, Copy, Debug, PartialEq, Eq, Structural)]
pub enum State {
    Cookie,
    Milk,
    Draw,
    Incomplete,
}

/// Why a tile could not be placed.
#[derive(Clone, Copy, Debug, PartialEq, Eq, Structural)]
pub enum PlacementError {
    /// The column is not one of 1, 2, 3, 4.
    OutOfRange,
    /// Every cell of the column is taken.
    ColumnFull,
    /// The game is already won or drawn.
    GameDecided,
}

/// The tile that marks a team's cells.
pub open spec fn team_tile(team: Team) -> Tile {
    match team {
        Team::Milk => Tile::Milk,
        Team::Cookie => Tile::Cookie,
    }
}

impl Team {
    /// The tile that marks the team's cells.
    pub fn to_tile(&self) -> (tile: Tile)
        ensures
            tile == team_tile(*self),
    {
        match self {
            Team::Milk => Tile::Milk,
            Team::Cookie => Tile::Cookie,
        }
    }

    /// The team as it is drawn.
    pub fn to_string(&self) -> (text: String)
        ensures
            text@ == team_text(*self),
    {
        String::from_str(self.to_tile().symbol())
    }
}

impl Tile {
    /// The symbol that stands for the tile.
    pub fn symbol(&self) -> (text: &'static str)
        ensures
            text@ == tile_text(*self),
    {
        match self {
            Tile::Empty => "⬛",
            Tile::Wall => "⬜",
            Tile::Milk => "🥛",
            Tile::Cookie => "🍪",
        }
    }

    /// The tile as it is drawn.
    pub fn to_string(&self) -> (text: String)
        ensures
            text@ == tile_text(*self),
    {
        String::from_str(self.symbol())
    }
}

/// The cell at `row` (0 at the top) and `column` (0 at the left) of a grid
/// stored row by row.
pub open spec fn cell(cells: Seq<Tile>, row: int, column: int) -> Tile {
    cells[row * 4 + column]
}

/// A grid without any tile.
pub open spec fn empty_grid() -> Seq<Tile> {
    Seq::new(16, |i: int| Tile::Empty)
}

/// A playable grid: sixteen cells, none of them a wall.
pub open spec fn grid_ok(cells: Seq<Tile>) -> bool {
    &&& cells.len() == 16
    &&& forall|i: int| 0 <= i < 16 ==> cells[i] != Tile::Wall
}

/// The empty cell of `column` nearest to the floor among rows `0..=row`, by
/// its row, or -1 if there is none.
pub open spec fn lowest_empty_from(cells: Seq<Tile>, column: int, row: int) -> int
    decreases row + 1,
{
    if row < 0 {
        -1
    } else if cell(cells, row, column) == Tile::Empty {
        row
    } else {
        lowest_empty_from(cells, column, row - 1)
    }
}

/// The row in which a tile dropped into `column` comes to rest, or -1 if the
/// column is full.
pub open spec fn landing_row(cells: Seq<Tile>, column: int) -> int {
    lowest_empty_from(cells, column, 3)
}

/// No cell of `column` is empty.
pub open spec fn column_full(cells: Seq<Tile>, column: int) -> bool {
    forall|row: int| 0 <= row < 4 ==> #[trigger] cell(cells, row, column) != Tile::Empty
}

/// What dropping a tile of `team` into the 1-indexed `column` does to a grid.
pub open spec fn drop_tile(cells: Seq<Tile>, team: Team, column: int) -> Result<
    Seq<Tile>,
    PlacementError,
> {
    if !(1 <= column <= 4) {
        Err(PlacementError::OutOfRange)
    } else if landing_row(cells, column - 1) < 0 {
        Err(PlacementError::ColumnFull)
    } else {
        Ok(cells.update(landing_row(cells, column - 1) * 4 + column - 1, team_tile(team)))
    }
}

/// Index of the `k`-th cell of winning line `line`. Lines 0 to 3 are the
/// columns, 4 to 7 the rows, 8 the diagonal from the top left and 9 the one
/// from the top right.
pub open spec fn line_cell(line: int, k: int) -> int {
    if line < 4 {
        k * 4 + line
    } else if line < 8 {
        (line - 4) * 4 + k
    } else if line == 8 {
        k * 5
    } else {
        3 + k * 3
    }
}

/// All four cells of `line` hold `tile`.
pub open spec fn owns_line(cells: Seq<Tile>, tile: Tile, line: int) -> bool {
    forall|k: int| 0 <= k < 4 ==> cells[#[trigger] line_cell(line, k)] == tile
}

/// `tile` fills at least one of the ten winning lines.
pub open spec fn has_line(cells: Seq<Tile>, tile: Tile) -> bool {
    exists|line: int| 0 <= line < 10 && #[trigger] owns_line(cells, tile, line)
}

/// The test for a cell that holds `tile`.
pub open spec fn holds(tile: Tile) -> spec_fn(Tile) -> bool {
    |t: Tile| t == tile
}

/// The test for a cell that is not empty.
pub open spec fn taken() -> spec_fn(Tile) -> bool {
    |t: Tile| t != Tile::Empty
}

/// Number of cells that hold `tile`.
pub open spec fn tile_count(cells: Seq<Tile>, tile: Tile) -> nat {
    cells.filter(holds(tile)).len()
}

/// Number of cells that are not empty.
pub open spec fn placed_count(cells: Seq<Tile>) -> nat {
    cells.filter(taken()).len()
}

/// The state of the game on a grid. A grid on which both teams own a line
/// counts as drawn, like a full grid on which neither does.
pub open spec fn classify(cells: Seq<Tile>) -> State {
    let cookie = has_line(cells, Tile::Cookie);
    let milk = has_line(cells, Tile::Milk);
    if cookie && milk {
        State::Draw
    } else if cookie {
        State::Cookie
    } else if milk {
        State::Milk
    } else if placed_count(cells) == 16 {
        State::Draw
    } else {
        State::Incomplete
    }
}

/// What a move does once the state of the game is taken into account: a
/// decided game takes no more tiles.
pub open spec fn play(cells: Seq<Tile>, team: Team, column: int) -> Result<
    Seq<Tile>,
    PlacementError,
> {
    if classify(cells) != State::Incomplete {
        Err(PlacementError::GameDecided)
    } else {
        drop_tile(cells, team, column)
    }
}

/// How a tile is drawn.
pub open spec fn tile_text(tile: Tile) -> Seq<char> {
    match tile {
        Tile::Empty => "⬛"@,
        Tile::Wall => "⬜"@,
        Tile::Milk => "🥛"@,
        Tile::Cookie => "🍪"@,
    }
}

/// How a team is drawn: as its tile.
pub open spec fn team_text(team: Team) -> Seq<char> {
    tile_text(team_tile(team))
}

/// The first `n` cells of `row`, drawn from the left.
pub open spec fn row_cells_text(cells: Seq<Tile>, row: int, n: int) -> Seq<char>
    decreases n,
{
    if n <= 0 {
        Seq::empty()
    } else {
        row_cells_text(cells, row, n - 1) + tile_text(cell(cells, row, n - 1))
    }
}

/// One row between two walls, with its line end.
pub open spec fn row_text(cells: Seq<Tile>, row: int) -> Seq<char> {
    tile_text(Tile::Wall) + row_cells_text(cells, row, 4) + tile_text(Tile::Wall) + "\n"@
}

/// The first `n` rows, drawn from the top.
pub open spec fn rows_text(cells: Seq<Tile>, n: int) -> Seq<char>
    decreases n,
{
    if n <= 0 {
        Seq::empty()
    } else {
        rows_text(cells, n - 1) + row_text(cells, n - 1)
    }
}

/// `n` walls side by side.
pub open spec fn walls_text(n: int) -> Seq<char>
    decreases n,
{
    if n <= 0 {
        Seq::empty()
    } else {
        walls_text(n - 1) + tile_text(Tile::Wall)
    }
}

/// The line under the grid that tells how the game ended; nothing while it
/// is still open.
pub open spec fn status_text(state: State) -> Seq<char> {
    match state {
        State::Cookie => team_text(Team::Cookie) + " wins!\n"@,
        State::Milk => team_text(Team::Milk) + " wins!\n"@,
        State::Draw => "No winner.\n"@,
        State::Incomplete => Seq::empty(),
    }
}

/// The whole drawing: four rows, the floor of six walls, the status line.
pub open spec fn board_text(cells: Seq<Tile>) -> Seq<char> {
    rows_text(cells, 4) + (walls_text(6) + "\n"@) + status_text(classify(cells))
}

/// The 4×4 grid, row by row from the top.
pub struct Board {
    board: Vec<Tile>,
}

impl View for Board {
    type V = Seq<Tile>;

    closed spec fn view(&self) -> Seq<Tile> {
        self.board@
    }
}

/// Index of the `k`-th cell of winning line `line`.
fn line_cell_index(line: usize, k: usize) -> (i: usize)
    requires
        line < 10,
        k < 4,
    ensures
        i == line_cell(line as int, k as int),
        i < 16,
{
    if line < 4 {
        k * 4 + line
    } else if line < 8 {
        (line - 4) * 4 + k
    } else if line == 8 {
        k * 5
    } else {
        3 + k * 3
    }
}

impl Board {
    /// The invariant of every board.
    pub open spec fn wf(&self) -> bool {
        grid_ok(self@)
    }

    /// An empty board.
    pub fn new() -> (board: Board)
        ensures
            board.wf(),
            board@ == empty_grid(),
    {
        let board = Board { board: vec![Tile::Empty; 16] };
        assert(board@ =~= empty_grid());
        board
    }

    /// The tile at `row` and `column`, both counted from 0.
    pub fn tile_at(&self, row: usize, column: usize) -> (tile: Tile)
        requires
            self.wf(),
            row < 4,
            column < 4,
        ensures
            tile == cell(self@, row as int, column as int),
    {
        self.board[row * 4 + column]
    }

    /// Number of tiles on the board.
    pub fn count_placed(&self) -> (count: usize)
        requires
            self.wf(),
        ensures
            count == placed_count(self@),
            count <= 16,
    {
        let mut count: usize = 0;
        let mut i: usize = 0;
        proof {
            reveal(Seq::filter);
            assert(self@.take(0).len() == 0);
        }
        while i < 16
            invariant
                i <= 16,
                self.board@.len() == 16,
                count == self.board@.take(i as int).filter(taken()).len(),
                count <= i,
            decreases 16 - i,
        {
            proof {
                reveal(Seq::filter);
                assert(self.board@.take(i + 1).drop_last() =~= self.board@.take(i as int));
                assert(self.board@.take(i + 1).last() == self.board@[i as int]);
            }
            if self.board[i] != Tile::Empty {
                count += 1;
            }
            i += 1;
        }
        assert(self.board@.take(16) =~= self.board@);
        count
    }

    /// Drops a tile of `team` into `column`, counted from 1: the tile takes the
    /// lowest empty cell of the column. On an error the board is unchanged.
    pub fn place(&mut self, team: Team, column: u8) -> (res: Result<(), PlacementError>)
        requires
            old(self).wf(),
        ensures
            final(self).wf(),
            match drop_tile(old(self)@, team, column as int) {
                Ok(cells) => res is Ok && final(self)@ == cells,
                Err(e) => res == Err::<(), PlacementError>(e) && final(self)@ == old(self)@,
            },
    {
        if column < 1 || column > 4 {
            return Err(PlacementError::OutOfRange);
        }
        let x: usize = (column - 1) as usize;
        let mut y: usize = 4;
        while y > 0
            invariant
                y <= 4,
                x == column - 1,
                1 <= column <= 4,
                self.board@ == old(self).board@,
                grid_ok(self.board@),
                landing_row(self.board@, x as int) == lowest_empty_from(self.board@, x as int, y - 1),
            decreases y,
        {
            y -= 1;
            let i = y * 4 + x;
            if self.board[i] == Tile::Empty {
                self.board.set(i, team.to_tile());
                assert(landing_row(old(self)@, x as int) == y);
                assert(self@ =~= old(self)@.update(y * 4 + column - 1, team_tile(team)));
                return Ok(());
            }
        }
        Err(PlacementError::ColumnFull)
    }

    /// The state of the game.
    pub fn winner(&self) -> (state: State)
        requires
            self.wf(),
        ensures
            state == classify(self@),
    {
        let mut cookie = false;
        let mut milk = false;
        let mut line: usize = 0;
        while line < 10
            invariant
                line <= 10,
                self.board@.len() == 16,
                cookie == (exists|l: int|
                    0 <= l < line && #[trigger] owns_line(self.board@, Tile::Cookie, l)),
                milk == (exists|l: int|
                    0 <= l < line && #[trigger] owns_line(self.board@, Tile::Milk, l)),
            decreases 10 - line,
        {
            let mut cookie_count: usize = 0;
            let mut milk_count: usize = 0;
            let mut k: usize = 0;
            while k < 4
                invariant
                    k <= 4,
                    line < 10,
                    self.board@.len() == 16,
                    cookie_count <= k,
                    milk_count <= k,
                    cookie_count == k <==> (forall|j: int|
                        0 <= j < k ==> self.board@[#[trigger] line_cell(line as int, j)]
                            == Tile::Cookie),
                    milk_count == k <==> (forall|j: int|
                        0 <= j < k ==> self.board@[#[trigger] line_cell(line as int, j)]
                            == Tile::Milk),
                decreases 4 - k,
            {
                match self.board[line_cell_index(line, k)] {
                    Tile::Cookie => {
                        cookie_count += 1;
                    },
                    Tile::Milk => {
                        milk_count += 1;
                    },
                    _ => {},
                }
                k += 1;
            }
            assert(owns_line(self.board@, Tile::Cookie, line as int) == (cookie_count == 4));
            assert(owns_line(self.board@, Tile::Milk, line as int) == (milk_count == 4));
            if cookie_count == 4 {
                cookie = true;
            }
            if milk_count == 4 {
                milk = true;
            }
            line += 1;
        }
        let placed = self.count_placed();
        if cookie && milk {
            State::Draw
        } else if cookie {
            State::Cookie
        } else if milk {
            State::Milk
        } else if placed == 16 {
            State::Draw
        } else {
            State::Incomplete
        }
    }
    /// Draws the board.
    pub fn to_string(&self) -> (text: String)
        requires
            self.wf(),
        ensures
            text@ == board_text(self@),
    {
        let mut out = String::new();
        let mut y: usize = 0;
        while y < 4
            invariant
                y <= 4,
                self.board@.len() == 16,
                out@ == rows_text(self.board@, y as int),
            decreases 4 - y,
        {
            let mut row = String::from_str(Tile::Wall.symbol());
            let mut x: usize = 0;
            while x < 4
                invariant
                    x <= 4,
                    y < 4,
                    self.board@.len() == 16,
                    row@ == tile_text(Tile::Wall) + row_cells_text(self.board@, y as int, x as int),
                decreases 4 - x,
            {
                row.append(self.board[y * 4 + x].symbol());
                x += 1;
                assert(row@ =~= tile_text(Tile::Wall) + row_cells_text(
                    self.board@,
                    y as int,
                    x as int,
                ));
            }
            row.append(Tile::Wall.symbol());
            row.append("\n");
            out.append(row.as_str());
            y += 1;
        }
        let mut floor = String::new();
        let mut n: usize = 0;
        while n < 6
            invariant
                n <= 6,
                floor@ == walls_text(n as int),
            decreases 6 - n,
        {
            floor.append(Tile::Wall.symbol());
            n += 1;
        }
        floor.append("\n");
        out.append(floor.as_str());
        match self.winner() {
            State::Cookie => {
                out.append(Team::Cookie.to_tile().symbol());
                out.append(" wins!\n");
            },
            State::Milk => {
                out.append(Team::Milk.to_tile().symbol());
                out.append(" wins!\n");
            },
            State::Draw => {
                out.append("No winner.\n");
            },
            State::Incomplete => {},
        }
        assert(out@ =~= board_text(self@));
        out
    }
}

/// Plays one move: a decided game takes no more tiles, an open one takes the
/// tile as [`Board::place`] does. On an error the board is unchanged.
pub fn place(board: &mut Board, team: Team, column: u8) -> (res: Result<(), PlacementError>)
    requires
        old(board).wf(),
    ensures
        final(board).wf(),
        match play(old(board)@, team, column as int) {
            Ok(cells) => res is Ok && final(board)@ == cells,
            Err(e) => res == Err::<(), PlacementError>(e) && final(board)@ == old(board)@,
        },
{
    match board.winner() {
        State::Incomplete => board.place(team, column),
        _ => Err(PlacementError::GameDecided),
    }
}

/// Clears the board.
pub fn reset(board: &mut Board)
    ensures
        final(board).wf(),
        final(board)@ == empty_grid(),
{
    *board = Board::new();
}

/// Declares std's `Mutex`, of which nothing but its type is known here.
#[verifier::external_type_specification]
#[verifier::external_body]
#[verifier::reject_recursive_types(T)]
pub struct ExMutex<T: ?Sized>(Mutex<T>);

/// The grid of the board that a lock was made around. What the lock holds
/// later, after a request has had the board, is not told by this.
pub uninterp spec fn grid_at_start(data: Mutex<Board>) -> Seq<Tile>;

/// Puts a board behind a lock with `Mutex::new`, which moves the value it
/// is given into the new lock.
#[verifier::external_body]
fn lock_board(board: Board) -> (data: Mutex<Board>)
    ensures
        grid_at_start(data) == board@,
{
    Mutex::new(board)
}

/// The one board that all requests share, behind its lock.
pub type BoardData = Mutex<Board>;

/// A lock made around an empty board: every game starts from there.
pub fn board_data() -> (data: BoardData)
    ensures
        grid_at_start(data) == empty_grid(),
        grid_ok(grid_at_start(data)),
{
    lock_board(Board::new())
}

} // verus!
