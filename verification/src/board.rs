//! The board of the cellular automaton, its generation rule and the engine
//! that owns the one board shared by all requests.

use crate::error::ServiceError;
use vstd::prelude::*;

verus! {

/// Number of rows of the board, and of cells in a row.
pub const SIDE: usize = 20;

/// Number of cells of the board; linear indices run below it.
pub const CELLS: u64 = 400;

/// The mathematical model of a board: rows of cells, `true` for a live cell.
pub type Grid = Seq<Seq<bool>>;

/// A grid of `SIDE` rows with `SIDE` cells each.
pub open spec fn full_size(grid: Grid) -> bool {
    &&& grid.len() == SIDE
    &&& forall|row: int| 0 <= row < SIDE ==> (#[trigger] grid[row]).len() == SIDE
}

/// The grid with no live cell.
pub open spec fn blank() -> Grid {
    Seq::new(SIDE as nat, |row: int| Seq::new(SIDE as nat, |col: int| false))
}

/// Whether the cell at (`row`, `col`) is alive. A position outside the grid
/// holds no live cell: the board does not wrap around.
pub open spec fn alive(grid: Grid, row: int, col: int) -> bool {
    0 <= row < SIDE && 0 <= col < SIDE && grid[row][col]
}

/// 1 for a live cell at (`row`, `col`), 0 otherwise.
pub open spec fn live(grid: Grid, row: int, col: int) -> nat {
    if alive(grid, row, col) {
        1
    } else {
        0
    }
}

/// Number of live cells among the eight cells around (`row`, `col`).
pub open spec fn live_neighbors(grid: Grid, row: int, col: int) -> nat {
    live(grid, row - 1, col) + live(grid, row - 1, col + 1) + live(grid, row, col + 1) + live(
        grid,
        row + 1,
        col + 1,
    ) + live(grid, row + 1, col) + live(grid, row + 1, col - 1) + live(grid, row, col - 1) + live(
        grid,
        row - 1,
        col - 1,
    )
}

/// Conway's rule: a live cell stays alive with two or three live neighbors, a
/// dead cell comes alive with exactly three.
pub open spec fn rule(is_alive: bool, neighbors: nat) -> bool {
    if is_alive {
        neighbors == 2 || neighbors == 3
    } else {
        neighbors == 3
    }
}

/// The state of the cell at (`row`, `col`) one generation after `grid`.
pub open spec fn next_cell(grid: Grid, row: int, col: int) -> bool {
    rule(alive(grid, row, col), live_neighbors(grid, row, col))
}

/// The grid one generation after `grid`: every cell follows the rule on the
/// neighbors it has in `grid`.
pub open spec fn next_generation(grid: Grid) -> Grid {
    Seq::new(SIDE as nat, |row: int| Seq::new(SIDE as nat, |col: int| next_cell(grid, row, col)))
}

/// How often `index` occurs in `indices`.
pub open spec fn occurrences(indices: Seq<u64>, index: int) -> nat
    decreases indices.len(),
{
    if indices.len() == 0 {
        0
    } else {
        occurrences(indices.drop_last(), index) + if indices.last() == index {
            1nat
        } else {
            0nat
        }
    }
}

/// Every index names a cell of the board.
pub open spec fn in_range(indices: Seq<u64>) -> bool {
    forall|i: int| 0 <= i < indices.len() ==> indices[i] < CELLS
}

/// The grid after flipping, for each entry of `indices`, the cell at row
/// `index / SIDE` and column `index % SIDE`: a cell ends up flipped exactly if
/// its index is listed an odd number of times.
pub open spec fn toggled(grid: Grid, indices: Seq<u64>) -> Grid {
    Seq::new(
        SIDE as nat,
        |row: int|
            Seq::new(
                SIDE as nat,
                |col: int| grid[row][col] != (occurrences(indices, row * SIDE + col) % 2 == 1),
            ),
    )
}

/// A 20×20 board of cells, row by row.
#[derive(Clone, Copy, Debug)]
pub struct Board {
    pub cells: [[bool; SIDE]; SIDE],
}

impl View for Board {
    type V = Grid;

    open spec fn view(&self) -> Grid {
        Seq::new(SIDE as nat, |row: int| Seq::new(SIDE as nat, |col: int| self.cells[row][col]))
    }
}

impl Board {
    /// A board with no live cell.
    pub fn new() -> (board: Board)
        ensures
            board@ == blank(),
    {
        let board = Board { cells: [[false; SIDE]; SIDE] };
        assert(board@ =~~= blank());
        board
    }

    /// Reads the cell at (`row`, `col`); a position outside the board reads
    /// as dead.
    pub fn is_alive(&self, row: i32, col: i32) -> (state: bool)
        ensures
            state == alive(self@, row as int, col as int),
    {
        if 0 <= row && row < SIDE as i32 && 0 <= col && col < SIDE as i32 {
            self.cells[row as usize][col as usize]
        } else {
            false
        }
    }

    /// Flips the cell with linear index `index`, which lies in row
    /// `index / SIDE` and column `index % SIDE`.
    pub fn toggle(&mut self, index: u64)
        requires
            index < CELLS,
        ensures
            final(self)@ == toggled(old(self)@, seq![index]),
    {
        let side = SIDE as u64;
        let row = (index / side) as usize;
        let col = (index % side) as usize;
        self.cells[row][col] = !self.cells[row][col];
        proof {
            lemma_occurrences_single(index);
            assert(self@ =~~= toggled(old(self)@, seq![index]));
        }
    }

    /// Flips the listed cells, one flip for each entry, so that a cell listed
    /// an even number of times is back where it was. A list holding an index
    /// outside the board is refused as a whole and the board is left as it
    /// was.
    pub fn toggle_all(&mut self, indices: &[u64]) -> (outcome: Result<(), ServiceError>)
        ensures
            in_range(indices@) ==> outcome is Ok && final(self)@ == toggled(
                old(self)@,
                indices@,
            ),
            !in_range(indices@) ==> outcome == Err::<(), ServiceError>(ServiceError::InvalidCellIndex)
                && *final(self) == *old(self),
    {
        let mut work = *self;
        let mut i: usize = 0;
        proof {
            lemma_toggled_none(work@);
            assert(indices@.take(0) =~= Seq::<u64>::empty());
        }
        while i < indices.len()
            invariant
                i <= indices.len(),
                in_range(indices@.take(i as int)),
                work@ == toggled(self@, indices@.take(i as int)),
            decreases indices.len() - i,
        {
            let index = indices[i];
            if index >= CELLS {
                return Err(ServiceError::InvalidCellIndex);
            }
            proof {
                lemma_toggled_push(self@, indices@.take(i as int), index);
                assert(indices@.take(i as int).push(index) =~= indices@.take(i as int + 1));
            }
            work.toggle(index);
            i += 1;
        }
        assert(indices@.take(i as int) =~= indices@);
        *self = work;
        Ok(())
    }

    /// Counts the live cells around (`row`, `col`). Positions outside the
    /// board hold none, so the count is 0 for a position that does not touch
    /// the board.
    pub fn count_live_neighbors(&self, row: usize, col: usize) -> (count: u8)
        ensures
            count == live_neighbors(self@, row as int, col as int),
    {
        if row > SIDE || col > SIDE {
            return 0;
        }
        let r = row as i32;
        let c = col as i32;
        let mut count: u8 = 0;
        if self.is_alive(r - 1, c) {
            count += 1;
        }
        if self.is_alive(r - 1, c + 1) {
            count += 1;
        }
        if self.is_alive(r, c + 1) {
            count += 1;
        }
        if self.is_alive(r + 1, c + 1) {
            count += 1;
        }
        if self.is_alive(r + 1, c) {
            count += 1;
        }
        if self.is_alive(r + 1, c - 1) {
            count += 1;
        }
        if self.is_alive(r, c - 1) {
            count += 1;
        }
        if self.is_alive(r - 1, c - 1) {
            count += 1;
        }
        count
    }
}

/// Advances `game` by one generation. Every cell is decided on the board as
/// it was before the call, so the order in which cells are visited does not
/// matter.
pub fn play_game(game: &mut Board)
    ensures
        final(game)@ == next_generation(old(game)@),
{
    let mut next: [[bool; SIDE]; SIDE] = [[false; SIDE]; SIDE];
    let mut row: usize = 0;
    while row < SIDE
        invariant
            row <= SIDE,
            forall|r: int, c: int|
                0 <= r < row && 0 <= c < SIDE ==> next[r][c] == next_cell(game@, r, c),
        decreases SIDE - row,
    {
        let mut col: usize = 0;
        while col < SIDE
            invariant
                row < SIDE,
                col <= SIDE,
                forall|r: int, c: int|
                    0 <= r < row && 0 <= c < SIDE ==> next[r][c] == next_cell(game@, r, c),
                forall|c: int|
                    0 <= c < col ==> next[row as int][c] == next_cell(game@, row as int, c),
            decreases SIDE - col,
        {
            let neighbors = game.count_live_neighbors(row, col);
            let state = if game.cells[row][col] {
                neighbors == 2 || neighbors == 3
            } else {
                neighbors == 3
            };
            next[row][col] = state;
            col += 1;
        }
        row += 1;
    }
    game.cells = next;
    assert(game@ =~~= next_generation(old(game)@));
}

/// The board that all requests share, behind one owner.
pub struct Engine {
    board: Board,
}

/// The state of the engine after a reset, whatever it was before.
pub open spec fn after_reset(before: Grid) -> Grid {
    blank()
}

/// What a snapshot shows of the engine's state: all of it.
pub open spec fn snapshot_of(state: Grid) -> Grid {
    state
}

/// The state of the engine after the listed cells were flipped and one
/// generation has passed; a list with an index outside the board changes
/// nothing.
pub open spec fn after_toggle_and_step(before: Grid, indices: Seq<u64>) -> Grid {
    if in_range(indices) {
        next_generation(toggled(before, indices))
    } else {
        before
    }
}

impl View for Engine {
    type V = Grid;

    closed spec fn view(&self) -> Grid {
        self.board@
    }
}

impl Engine {
    /// An engine whose board has no live cell.
    pub fn new() -> (engine: Engine)
        ensures
            engine@ == blank(),
    {
        Engine { board: Board::new() }
    }

    /// A copy of the board as it is now.
    pub fn snapshot(&self) -> (board: Board)
        ensures
            board@ == snapshot_of(self@),
    {
        self.board
    }

    /// Kills every cell and returns the blank board.
    pub fn reset(&mut self) -> (board: Board)
        ensures
            final(self)@ == after_reset(old(self)@),
            board@ == snapshot_of(final(self)@),
    {
        self.board = Board::new();
        self.board
    }

    /// Flips the listed cells, then advances the board by one generation, and
    /// returns the new board. A list with an index outside the board is
    /// refused and the board stays as it was.
    pub fn toggle_and_step(&mut self, indices: &[u64]) -> (outcome: Result<Board, ServiceError>)
        ensures
            final(self)@ == after_toggle_and_step(old(self)@, indices@),
            in_range(indices@) ==> outcome is Ok && outcome->Ok_0@ == snapshot_of(final(self)@),
            !in_range(indices@) ==> outcome is Err && outcome->Err_0 == ServiceError::InvalidCellIndex,
    {
        let mut board = self.board;
        match board.toggle_all(indices) {
            Ok(()) => {
                play_game(&mut board);
                self.board = board;
                Ok(board)
            },
            Err(error) => Err(error),
        }
    }
}

/// An empty list of indices flips nothing.
pub proof fn lemma_toggled_none(grid: Grid)
    requires
        full_size(grid),
    ensures
        toggled(grid, Seq::<u64>::empty()) == grid,
{
    assert(toggled(grid, Seq::<u64>::empty()) =~~= grid);
}

/// A list of one index holds that index once and no other.
pub proof fn lemma_occurrences_single(index: u64)
    ensures
        forall|k: int| occurrences(seq![index], k) == if k == index { 1nat } else { 0nat },
{
    assert forall|k: int| occurrences(seq![index], k) == if k == index { 1nat } else { 0nat } by {
        assert(occurrences(seq![index].drop_last(), k) == 0);
    }
}

/// Flipping the cells of a list and then one more cell is flipping the cells
/// of the list with that cell's index appended.
pub proof fn lemma_toggled_push(grid: Grid, indices: Seq<u64>, index: u64)
    requires
        full_size(grid),
    ensures
        toggled(toggled(grid, indices), seq![index]) == toggled(grid, indices.push(index)),
        in_range(indices) && index < CELLS ==> in_range(indices.push(index)),
{
    lemma_occurrences_single(index);
    assert(indices.push(index).drop_last() =~= indices);
    assert forall|k: int|
        occurrences(indices.push(index), k) == occurrences(indices, k) + occurrences(
            seq![index],
            k,
        ) by {}
    assert(toggled(toggled(grid, indices), seq![index]) =~~= toggled(grid, indices.push(index)));
}

/// After a reset a snapshot shows the blank board, whatever the board held
/// before.
pub proof fn lemma_reset_then_snapshot_is_blank(before: Grid)
    ensures
        snapshot_of(after_reset(before)) == blank(),
        forall|row: int, col: int| !alive(snapshot_of(after_reset(before)), row, col),
{
}

/// 1 for a position on the board, 0 for one outside it.
pub open spec fn on_board(row: int, col: int) -> nat {
    if 0 <= row < SIDE && 0 <= col < SIDE {
        1
    } else {
        0
    }
}

/// Number of positions around (`row`, `col`) that lie on the board.
pub open spec fn neighbor_positions(row: int, col: int) -> nat {
    on_board(row - 1, col) + on_board(row - 1, col + 1) + on_board(row, col + 1) + on_board(
        row + 1,
        col + 1,
    ) + on_board(row + 1, col) + on_board(row + 1, col - 1) + on_board(row, col - 1) + on_board(
        row - 1,
        col - 1,
    )
}

/// Two grids agree on every position of the board that is (`row`, `col`) or
/// touches it.
pub open spec fn same_neighborhood(a: Grid, b: Grid, row: int, col: int) -> bool {
    forall|r: int, c: int|
        row - 1 <= r <= row + 1 && col - 1 <= c <= col + 1 && 0 <= r < SIDE && 0 <= c < SIDE
            ==> a[r][c] == b[r][c]
}

/// Only positions on the board are counted as neighbors: a cell in a corner
/// has three of them and a cell on an edge five, never eight.
pub proof fn lemma_neighbors_stay_on_board(grid: Grid, row: int, col: int)
    ensures
        live_neighbors(grid, row, col) <= neighbor_positions(row, col),
        neighbor_positions(row, col) <= 8,
        (row == 0 || row == SIDE - 1) && (col == 0 || col == SIDE - 1) ==> neighbor_positions(
            row,
            col,
        ) == 3,
        (row == 0 || row == SIDE - 1) && 0 < col < SIDE - 1 ==> neighbor_positions(row, col) == 5,
        0 < row < SIDE - 1 && (col == 0 || col == SIDE - 1) ==> neighbor_positions(row, col) == 5,
{
}

/// The board does not wrap around: the next state of a cell is decided by the
/// cells of the board that touch it and by nothing else, so what lies on the
/// opposite edge has no say.
pub proof fn lemma_next_cell_is_local(a: Grid, b: Grid, row: int, col: int)
    requires
        same_neighborhood(a, b, row, col),
    ensures
        live_neighbors(a, row, col) == live_neighbors(b, row, col),
        next_cell(a, row, col) == next_cell(b, row, col),
{
}

} // verus!
