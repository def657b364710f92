//! One game of tic-tac-toe: the grid, whose turn it is, and the per-frame
//! rules that place marks and decide when the game is over.
use vstd::prelude::*;
use crate::state::{Action, ActionView, State, StateView};

verus! {

/// Number of columns of the grid.
pub const WIDTH: usize = 3;

/// Number of rows of the grid.
pub const HEIGHT: usize = 3;

/// Width of the window, in pixels.
pub const WINDOW_WIDTH: u32 = 900;

/// Height of the window, in pixels.
pub const WINDOW_HEIGHT: u32 = 900;

/// Width of one cell on screen, in pixels.
pub const CELL_WIDTH: u32 = 300;

/// Height of one cell on screen, in pixels.
pub const CELL_HEIGHT: u32 = 300;

/// Number of lines that win: three rows, three columns, two diagonals.
pub const LINES: usize = 8;

/// A player's mark.
#[derive(Clone, Copy, Debug, PartialEq, Eq, Structural)]
pub enum Mark {
    X,
    O,
}

impl Mark {
    /// The mark of the other player.
    pub open spec fn other(self) -> Mark {
        match self {
            Mark::X => Mark::O,
            Mark::O => Mark::X,
        }
    }

    /// The glyph that shows this mark.
    pub open spec fn glyph(self) -> char {
        match self {
            Mark::X => 'X',
            Mark::O => 'O',
        }
    }

    /// The mark of the other player.
    pub fn next(self) -> (r: Mark)
        ensures
            r == self.other(),
    {
        match self {
            Mark::X => Mark::O,
            Mark::O => Mark::X,
        }
    }

    /// The glyph that shows this mark.
    pub fn to_char(self) -> (r: char)
        ensures
            r == self.glyph(),
    {
        match self {
            Mark::X => 'X',
            Mark::O => 'O',
        }
    }
}

/// What one cell of the grid holds.
#[derive(Clone, Copy, Debug, PartialEq, Eq, Structural)]
pub enum Cell {
    Empty,
    Taken(Mark),
}

impl Cell {
    /// The glyph shown in the cell: a blank for an empty one.
    pub open spec fn glyph(self) -> char {
        match self {
            Cell::Empty => ' ',
            Cell::Taken(m) => m.glyph(),
        }
    }

    /// The glyph shown in the cell.
    pub fn to_char(self) -> (r: char)
        ensures
            r == self.glyph(),
    {
        match self {
            Cell::Empty => ' ',
            Cell::Taken(m) => m.to_char(),
        }
    }
}

/// How a game ended.
#[derive(Clone, Copy, Debug, PartialEq, Eq, Structural)]
pub enum Outcome {
    Win(Mark),
    Draw,
}

/// The grid of a game, indexed by row and then by column.
pub type Board = [[Cell; 3]; 3];

/// The mathematical value of a grid: a sequence of rows.
pub type Grid = Seq<Seq<Cell>>;

/// The cell at `row`, `col`.
pub open spec fn at(g: Grid, row: int, col: int) -> Cell {
    g[row][col]
}

/// The grid as a sequence of rows.
pub open spec fn grid_of(b: Board) -> Grid {
    Seq::new(3, |r: int| b@[r]@)
}

/// Whether the grid has three rows of three cells.
pub open spec fn is_grid(g: Grid) -> bool {
    g.len() == 3 && forall|r: int| 0 <= r < 3 ==> #[trigger] g[r].len() == 3
}

/// The grid with the cell at `row`, `col` replaced by `v`.
pub open spec fn set_at(g: Grid, row: int, col: int, v: Cell) -> Grid {
    g.update(row, g[row].update(col, v))
}

/// The three cells of line `k`: rows first, then columns, then the
/// diagonal from the top left, then the one from the bottom left.
pub open spec fn line(k: int) -> ((int, int), (int, int), (int, int)) {
    if k < 3 {
        ((k, 0), (k, 1), (k, 2))
    } else if k < 6 {
        ((0, k - 3), (1, k - 3), (2, k - 3))
    } else if k == 6 {
        ((0, 0), (1, 1), (2, 2))
    } else {
        ((2, 0), (1, 1), (0, 2))
    }
}

/// Whether every cell of line `k` holds `m`.
pub open spec fn line_of(b: Grid, k: int, m: Mark) -> bool {
    let (p, q, s) = line(k);
    &&& at(b, p.0, p.1) == Cell::Taken(m)
    &&& at(b, q.0, q.1) == Cell::Taken(m)
    &&& at(b, s.0, s.1) == Cell::Taken(m)
}

/// The owner of the first winning line at index `k` or later, in the
/// order of `line`.
pub open spec fn winner_from(b: Grid, k: int) -> Option<Mark>
    decreases 8 - k,
{
    if k < 0 || k >= 8 {
        None
    } else if line_of(b, k, Mark::X) {
        Some(Mark::X)
    } else if line_of(b, k, Mark::O) {
        Some(Mark::O)
    } else {
        winner_from(b, k + 1)
    }
}

/// The owner of the first winning line of the grid, if any.
pub open spec fn winner(b: Grid) -> Option<Mark> {
    winner_from(b, 0)
}

/// Whether no cell of the grid is empty.
pub open spec fn is_full(b: Grid) -> bool {
    forall|r: int, c: int| 0 <= r < 3 && 0 <= c < 3 ==> at(b, r, c) != Cell::Empty
}

/// How the grid ends the game, if it does: a win, else a draw when
/// the grid is full.
pub open spec fn outcome(b: Grid) -> Option<Outcome> {
    match winner(b) {
        Some(m) => Some(Outcome::Win(m)),
        None => if is_full(b) {
            Some(Outcome::Draw)
        } else {
            None
        },
    }
}

/// A grid in which no line is filled has no winner from `k` on.
proof fn lemma_no_winner_from(b: Grid, k: int)
    requires
        forall|j: int, m: Mark| k <= j < 8 ==> !#[trigger] line_of(b, j, m),
    ensures
        winner_from(b, k) is None,
    decreases 8 - k,
{
    if 0 <= k < 8 {
        assert(!line_of(b, k, Mark::X) && !line_of(b, k, Mark::O));
        lemma_no_winner_from(b, k + 1);
    }
}

/// 1 where the cell holds `m`, else 0.
pub open spec fn holds(c: Cell, m: Mark) -> int {
    if c == Cell::Taken(m) {
        1
    } else {
        0
    }
}

/// Number of cells of row `r` that hold `m`.
pub open spec fn count_row(g: Grid, r: int, m: Mark) -> int {
    holds(at(g, r, 0), m) + holds(at(g, r, 1), m) + holds(at(g, r, 2), m)
}

/// Number of cells of the grid that hold `m`.
pub open spec fn count(g: Grid, m: Mark) -> int {
    count_row(g, 0, m) + count_row(g, 1, m) + count_row(g, 2, m)
}

/// Putting `t` into an empty cell adds one to the cells that hold `t` and
/// leaves the count of the other mark as it was.
proof fn lemma_count_after_place(g: Grid, row: int, col: int, t: Mark)
    requires
        is_grid(g),
        0 <= row < 3,
        0 <= col < 3,
        at(g, row, col) == Cell::Empty,
    ensures
        count(set_at(g, row, col, Cell::Taken(t)), t) == count(g, t) + 1,
        count(set_at(g, row, col, Cell::Taken(t)), t.other()) == count(g, t.other()),
{
    let h = set_at(g, row, col, Cell::Taken(t));
    assert forall|r: int, c: int| 0 <= r < 3 && 0 <= c < 3 && (r != row || c != col) implies at(h, r, c)
        == at(g, r, c) by {
        assert(g[r].len() == 3);
    }
    assert(at(h, row, col) == Cell::Taken(t));
    assert(g[row].len() == 3);
}

/// The grid with no mark on it.
pub open spec fn empty_board() -> Grid {
    Seq::new(3, |r: int| Seq::new(3, |c: int| Cell::Empty))
}

/// The cell under a pointer at pixel `x`, `y`, as row and column.
pub open spec fn cell_under(x: int, y: int) -> (int, int) {
    (y / CELL_HEIGHT as int, x / CELL_WIDTH as int)
}

/// Whether a pointer at pixel `x`, `y` lies on the grid.
pub open spec fn on_grid(x: int, y: int) -> bool {
    0 <= x < WINDOW_WIDTH as int && 0 <= y < WINDOW_HEIGHT as int
}

/// The mathematical value of a `Game`.
pub struct GameView {
    pub board: Grid,
    pub turn: Mark,
    pub game_over: bool,
    pub active: bool,
}

impl GameView {
    /// A game that has just begun.
    pub open spec fn fresh() -> GameView {
        GameView { board: empty_board(), turn: Mark::X, game_over: false, active: true }
    }

    /// The grid has three rows of three cells; the first player has placed
    /// as many marks as the second, and one more exactly when the second is
    /// to move; a game that goes on has neither a winner nor a full grid;
    /// only a finished game is left inactive.
    pub open spec fn wf(self) -> bool {
        &&& is_grid(self.board)
        &&& count(self.board, Mark::X) == count(self.board, Mark::O) + if self.turn == Mark::O {
            1int
        } else {
            0int
        }
        &&& !self.game_over ==> outcome(self.board) is None
        &&& !self.active ==> self.game_over
    }

    /// The game after the current player clicks the cell at `row`, `col`:
    /// an empty cell takes the mark and the turn passes; an occupied one
    /// changes nothing.
    pub open spec fn place(self, row: int, col: int) -> GameView {
        if at(self.board, row, col) == Cell::Empty {
            GameView {
                board: set_at(self.board, row, col, Cell::Taken(self.turn)),
                turn: self.turn.other(),
                ..self
            }
        } else {
            self
        }
    }

    /// The game after one frame, given the pointer press of the frame (its
    /// pixel position), if any, and whether the restart key was pressed.
    pub open spec fn step(self, click: Option<(u32, u32)>, restart: bool) -> GameView {
        if self.game_over {
            GameView { active: self.active && !restart, ..self }
        } else {
            let placed = match click {
                Some((x, y)) => {
                    let (row, col) = cell_under(x as int, y as int);
                    self.place(row, col)
                },
                None => self,
            };
            GameView { game_over: outcome(placed.board) is Some, ..placed }
        }
    }

    /// What one frame reports: the outcome of the game when this frame
    /// ends it.
    pub open spec fn report(self, click: Option<(u32, u32)>, restart: bool) -> Option<Outcome> {
        if self.game_over {
            None
        } else {
            outcome(self.step(click, restart).board)
        }
    }
}

/// With line `k` filled by `m` and no line filled by the other mark, the
/// first filled line from `i` on is one of `m`.
proof fn lemma_winner_from_is(b: Grid, i: int, k: int, m: Mark)
    requires
        0 <= i <= k < 8,
        line_of(b, k, m),
        forall|j: int| 0 <= j < 8 ==> !#[trigger] line_of(b, j, m.other()),
    ensures
        winner_from(b, i) == Some(m),
    decreases k - i,
{
    assert(!line_of(b, i, m.other()));
    if i < k && !line_of(b, i, m) {
        lemma_winner_from_is(b, i + 1, k, m);
    }
}

/// A game that goes on ends on the frame whose grid, once the frame's mark
/// is placed, holds a line of three of one mark and no line of the other,
/// and that mark is reported as the winner. The line may be any of the
/// rows, columns and diagonals.
pub proof fn filled_line_wins(g: GameView, click: Option<(u32, u32)>, restart: bool, k: int, m: Mark)
    requires
        !g.game_over,
        0 <= k < 8,
        line_of(g.step(click, restart).board, k, m),
        forall|j: int| 0 <= j < 8 ==> !#[trigger] line_of(g.step(click, restart).board, j, m.other()),
    ensures
        g.step(click, restart).game_over,
        g.report(click, restart) == Some(Outcome::Win(m)),
{
    lemma_winner_from_is(g.step(click, restart).board, 0, k, m);
}

/// A game that goes on ends in a draw on the frame whose grid, once the
/// frame's mark is placed, is full with no line of three: no winner is
/// reported.
pub proof fn full_grid_is_draw(g: GameView, click: Option<(u32, u32)>, restart: bool)
    requires
        !g.game_over,
        is_full(g.step(click, restart).board),
        forall|j: int, m: Mark| 0 <= j < 8 ==> !#[trigger] line_of(g.step(click, restart).board, j, m),
    ensures
        g.step(click, restart).game_over,
        g.report(click, restart) == Some(Outcome::Draw),
{
    lemma_no_winner_from(g.step(click, restart).board, 0);
}

/// A click on an occupied cell changes neither the grid nor the turn.
pub proof fn occupied_click_changes_nothing(g: GameView, x: u32, y: u32, restart: bool)
    requires
        !g.game_over,
        on_grid(x as int, y as int),
        at(g.board, cell_under(x as int, y as int).0, cell_under(x as int, y as int).1)
            != Cell::Empty,
    ensures
        g.step(Some((x, y)), restart).board == g.board,
        g.step(Some((x, y)), restart).turn == g.turn,
{
}

/// A click on an empty cell puts the current player's mark there, leaves
/// every other cell as it was, and passes the turn to the other player.
pub proof fn placement_passes_turn(g: GameView, x: u32, y: u32, restart: bool)
    requires
        !g.game_over,
        is_grid(g.board),
        on_grid(x as int, y as int),
        at(g.board, cell_under(x as int, y as int).0, cell_under(x as int, y as int).1)
            == Cell::Empty,
    ensures
        g.step(Some((x, y)), restart).turn == g.turn.other(),
        at(
            g.step(Some((x, y)), restart).board,
            cell_under(x as int, y as int).0,
            cell_under(x as int, y as int).1,
        ) == Cell::Taken(g.turn),
        forall|r: int, c: int|
            0 <= r < 3 && 0 <= c < 3 && (r, c) != cell_under(x as int, y as int) ==> at(
                #[trigger] g.step(Some((x, y)), restart).board,
                r,
                c,
            ) == at(g.board, r, c),
{
}

/// A finished game ignores the pointer: its grid and turn stay, it stays
/// over and reports nothing; the restart key alone gives it up.
pub proof fn finished_game_ignores_pointer(g: GameView, click: Option<(u32, u32)>, restart: bool)
    requires
        g.game_over,
    ensures
        g.step(click, restart).board == g.board,
        g.step(click, restart).turn == g.turn,
        g.step(click, restart).game_over,
        g.step(click, restart).active == (g.active && !restart),
        g.report(click, restart) is None,
{
}

/// Every frame keeps a game well formed: in particular the turn passes
/// strictly from one player to the other, the first player having moved
/// as often as the second before each of its moves.
pub proof fn step_keeps_wf(g: GameView, click: Option<(u32, u32)>, restart: bool)
    requires
        g.wf(),
        click matches Some((x, y)) ==> on_grid(x as int, y as int),
    ensures
        g.step(click, restart).wf(),
{
    if !g.game_over {
        if let Some((x, y)) = click {
            let (row, col) = cell_under(x as int, y as int);
            if at(g.board, row, col) == Cell::Empty {
                lemma_count_after_place(g.board, row, col, g.turn);
                assert(g.board[row].len() == 3);
            }
        }
    }
}

/// One game: the grid, the mark to be placed next, whether the game is
/// over, and whether it is still wanted (a finished game is given up when
/// the restart key is pressed).
#[derive(Debug)]
pub struct Game {
    board: Board,
    turn: Mark,
    is_game_over: bool,
    is_active: bool,
}

impl View for Game {
    type V = GameView;

    closed spec fn view(&self) -> GameView {
        GameView {
            board: grid_of(self.board),
            turn: self.turn,
            game_over: self.is_game_over,
            active: self.is_active,
        }
    }
}

impl Game {
    /// Every game is well formed: see `GameView::wf`.
    #[verifier::type_invariant]
    spec fn inv(&self) -> bool {
        self@.wf()
    }

    /// A new game: an empty grid, the first player to move.
    pub fn new() -> (r: Game)
        ensures
            r@ == GameView::fresh(),
            r@.wf(),
    {
        let board: Board = [[Cell::Empty; 3]; 3];
        proof {
            assert(grid_of(board) =~~= GameView::fresh().board);
            lemma_no_winner_from(grid_of(board), 0);
            assert(at(grid_of(board), 0, 0) == Cell::Empty);
        }
        Game { board, turn: Mark::X, is_game_over: false, is_active: true }
    }

    /// Plays one frame. A game that goes on takes the pointer press of the
    /// frame, if any: the current player's mark goes into the cell under
    /// the pointer when that cell is empty, and the turn passes. Then the
    /// grid is judged, and a win or a full grid ends the game; the outcome
    /// is returned on the frame that ends it. A finished game ignores the
    /// pointer and is given up when the restart key is pressed.
    pub fn update(&mut self, click: Option<(u32, u32)>, restart: bool) -> (r: Option<Outcome>)
        requires
            click matches Some((x, y)) ==> on_grid(x as int, y as int),
        ensures
            final(self)@ == old(self)@.step(click, restart),
            r == old(self)@.report(click, restart),
            final(self)@.wf(),
    {
        proof {
            use_type_invariant(&*self);
        }
        if !self.is_game_over {
            let mut board = self.board;
            let mut turn = self.turn;
            if let Some((x, y)) = click {
                let (row, col) = cell_under_exec(x, y);
                if board[row][col] == Cell::Empty {
                    board[row][col] = Cell::Taken(turn);
                    turn = turn.next();
                    assert(grid_of(board) =~~= old(self)@.place(row as int, col as int).board);
                    proof {
                        lemma_count_after_place(old(self)@.board, row as int, col as int, old(self)@.turn);
                    }
                }
            }
            let r = board_outcome(&board);
            *self = Game { board, turn, is_game_over: r.is_some(), is_active: self.is_active };
            r
        } else {
            if restart {
                *self = Game { is_active: false, ..*self };
            }
            None
        }
    }

    /// Ends a frame's draw step: a game that was given up asks the shell to
    /// put a new game in its place.
    pub fn draw(&self) -> (r: Option<Action>)
        ensures
            self@.active ==> r is None,
            !self@.active ==> (r matches Some(a) && a@ == ActionView::Change(StateView::Game(GameView::fresh()))),
    {
        if !self.is_active {
            Some(Action::Change(State::Game(Game::new())))
        } else {
            None
        }
    }

    /// The cell at `row`, `col`.
    pub fn cell(&self, row: usize, col: usize) -> (r: Cell)
        requires
            row < HEIGHT,
            col < WIDTH,
        ensures
            r == at(self@.board, row as int, col as int),
    {
        self.board[row][col]
    }

    /// The mark to be placed next.
    pub fn turn(&self) -> (r: Mark)
        ensures
            r == self@.turn,
    {
        self.turn
    }

    /// Whether the game has ended, by a win or a full grid.
    pub fn is_game_over(&self) -> (r: bool)
        ensures
            r == self@.game_over,
    {
        self.is_game_over
    }

    /// Whether the game is still wanted: false once a finished game is
    /// given up.
    pub fn is_active(&self) -> (r: bool)
        ensures
            r == self@.active,
    {
        self.is_active
    }
}

/// The row and column of the cell under a pointer at pixel `x`, `y` of the
/// grid.
fn cell_under_exec(x: u32, y: u32) -> (r: (usize, usize))
    requires
        on_grid(x as int, y as int),
    ensures
        (r.0 as int, r.1 as int) == cell_under(x as int, y as int),
        r.0 < HEIGHT,
        r.1 < WIDTH,
{
    ((y / CELL_HEIGHT) as usize, (x / CELL_WIDTH) as usize)
}

/// The cell under a pointer at pixel `x`, `y`, as row and column, or `None`
/// where the pointer is off the grid.
pub fn cell_at(x: u32, y: u32) -> (r: Option<(usize, usize)>)
    ensures
        r is Some <==> on_grid(x as int, y as int),
        r matches Some((row, col)) ==> (row as int, col as int) == cell_under(x as int, y as int)
            && row < HEIGHT && col < WIDTH,
{
    if x < WINDOW_WIDTH && y < WINDOW_HEIGHT {
        Some(cell_under_exec(x, y))
    } else {
        None
    }
}

/// The three cells of line `k`, as row and column each.
fn line_cells(k: usize) -> (r: ((usize, usize), (usize, usize), (usize, usize)))
    requires
        k < LINES,
    ensures
        (r.0.0 as int, r.0.1 as int) == line(k as int).0,
        (r.1.0 as int, r.1.1 as int) == line(k as int).1,
        (r.2.0 as int, r.2.1 as int) == line(k as int).2,
        r.0.0 < 3 && r.0.1 < 3 && r.1.0 < 3 && r.1.1 < 3 && r.2.0 < 3 && r.2.1 < 3,
{
    if k < 3 {
        ((k, 0), (k, 1), (k, 2))
    } else if k < 6 {
        ((0, k - 3), (1, k - 3), (2, k - 3))
    } else if k == 6 {
        ((0, 0), (1, 1), (2, 2))
    } else {
        ((2, 0), (1, 1), (0, 2))
    }
}

/// The mark that fills line `k`, if one does.
fn line_winner(b: &Board, k: usize) -> (r: Option<Mark>)
    requires
        k < LINES,
    ensures
        r == (if line_of(grid_of(*b), k as int, Mark::X) {
            Some(Mark::X)
        } else if line_of(grid_of(*b), k as int, Mark::O) {
            Some(Mark::O)
        } else {
            None
        }),
{
    let (p, q, s) = line_cells(k);
    let first = b[p.0][p.1];
    match first {
        Cell::Taken(m) => {
            if b[q.0][q.1] == first && b[s.0][s.1] == first {
                Some(m)
            } else {
                None
            }
        },
        Cell::Empty => None,
    }
}

/// The owner of the first filled line, in the order of `line`.
fn find_winner(b: &Board) -> (r: Option<Mark>)
    ensures
        r == winner(grid_of(*b)),
{
    let mut k: usize = 0;
    while k < LINES
        invariant
            k <= LINES,
            winner(grid_of(*b)) == winner_from(grid_of(*b), k as int),
        decreases LINES - k,
    {
        let w = line_winner(b, k);
        if w.is_some() {
            return w;
        }
        k += 1;
    }
    None
}

/// Whether some cell of the grid is empty.
fn has_empty(b: &Board) -> (r: bool)
    ensures
        r == !is_full(grid_of(*b)),
{
    let mut row: usize = 0;
    while row < HEIGHT
        invariant
            row <= HEIGHT,
            forall|r: int, c: int| 0 <= r < row && 0 <= c < 3 ==> at(grid_of(*b), r, c) != Cell::Empty,
        decreases HEIGHT - row,
    {
        let mut col: usize = 0;
        while col < WIDTH
            invariant
                row < HEIGHT,
                col <= WIDTH,
                forall|r: int, c: int| 0 <= r < row && 0 <= c < 3 ==> at(grid_of(*b), r, c) != Cell::Empty,
                forall|c: int| 0 <= c < col ==> at(grid_of(*b), row as int, c) != Cell::Empty,
            decreases WIDTH - col,
        {
            if b[row][col] == Cell::Empty {
                assert(at(grid_of(*b), row as int, col as int) == Cell::Empty);
                return true;
            }
            col += 1;
        }
        row += 1;
    }
    false
}

/// How the grid ends the game, if it does.
fn board_outcome(b: &Board) -> (r: Option<Outcome>)
    ensures
        r == outcome(grid_of(*b)),
{
    match find_winner(b) {
        Some(m) => Some(Outcome::Win(m)),
        None => {
            if has_empty(b) {
                None
            } else {
                Some(Outcome::Draw)
            }
        },
    }
}

} // verus!
