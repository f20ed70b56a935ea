//! The game's rules over a mathematical grid: what a board looks like, when
//! a capture is available, and what a move does.

use vstd::prelude::*;

use crate::types::{BoardPieces, Piece, Position, Side, BOARD_SIZE};

verus! {

/// Strength of every piece when a game starts.
pub const INITIAL_NUMBER: u8 = 3;

/// Why a move was refused.
#[derive(Clone, Copy, Debug, PartialEq, Eq, Structural)]
pub enum BoardOperationError {
    /// A square lies off the board.
    InvalidPosition,
    /// The player's side is not the side to move.
    InvalidTurn,
    /// The starting square holds no piece of the player's side.
    InvalidPiece,
    /// The move breaks the movement rules.
    InvalidMove,
}

impl BoardOperationError {
    /// The error's code as sent to clients.
    pub fn as_str(&self) -> (r: &'static str)
        ensures
            *self is InvalidPosition ==> r@ == "INVALID_POSITION"@,
            *self is InvalidTurn ==> r@ == "INVALID_TURN"@,
            *self is InvalidPiece ==> r@ == "INVALID_PIECE"@,
            *self is InvalidMove ==> r@ == "INVALID_MOVE"@,
    {
        proof {
            reveal_strlit("INVALID_POSITION");
            reveal_strlit("INVALID_TURN");
            reveal_strlit("INVALID_PIECE");
            reveal_strlit("INVALID_MOVE");
        }
        match self {
            BoardOperationError::InvalidPosition => "INVALID_POSITION",
            BoardOperationError::InvalidTurn => "INVALID_TURN",
            BoardOperationError::InvalidPiece => "INVALID_PIECE",
            BoardOperationError::InvalidMove => "INVALID_MOVE",
        }
    }
}

/// The board as rows of squares: `g[y][x]`.
pub type Grid = Seq<Seq<Option<Piece>>>;

pub open spec fn grid_of(pieces: BoardPieces) -> Grid {
    Seq::new(BOARD_SIZE as nat, |y: int| pieces[y]@)
}

pub open spec fn on_board(x: int, y: int) -> bool {
    0 <= x < BOARD_SIZE && 0 <= y < BOARD_SIZE
}

pub open spec fn in_range(p: Position) -> bool {
    on_board(p.0 as int, p.1 as int)
}

pub open spec fn cell(g: Grid, x: int, y: int) -> Option<Piece> {
    g[y][x]
}

pub open spec fn set_cell(g: Grid, x: int, y: int, v: Option<Piece>) -> Grid {
    g.update(y, g[y].update(x, v))
}

/// Whether a grid has the board's shape.
pub open spec fn is_board_grid(g: Grid) -> bool {
    g.len() == BOARD_SIZE && forall|y: int| 0 <= y < BOARD_SIZE ==> (#[trigger] g[y]).len()
        == BOARD_SIZE
}

/// The starting layout: on the squares where `x + y` is odd, side B holds
/// the first three rows and side A the last three.
pub open spec fn initial_cell(x: int, y: int) -> Option<Piece> {
    if (x + y) % 2 == 1 && y < 3 {
        Some(Piece { side: Side::B, number: INITIAL_NUMBER })
    } else if (x + y) % 2 == 1 && y >= BOARD_SIZE - 3 {
        Some(Piece { side: Side::A, number: INITIAL_NUMBER })
    } else {
        None
    }
}

pub open spec fn initial_grid() -> Grid {
    Seq::new(
        BOARD_SIZE as nat,
        |y: int| Seq::new(BOARD_SIZE as nat, |x: int| initial_cell(x, y)),
    )
}

/// How many of the first `n` squares of `row` hold a piece of `side`.
pub open spec fn row_count(row: Seq<Option<Piece>>, side: Side, n: int) -> nat
    decreases n,
{
    if n <= 0 {
        0
    } else {
        row_count(row, side, n - 1) + if row[n - 1] is Some && row[n - 1]->0.side == side {
            1nat
        } else {
            0nat
        }
    }
}

/// How many pieces `side` has in the first `m` rows of `g`.
pub open spec fn piece_count(g: Grid, side: Side, m: int) -> nat
    decreases m,
{
    if m <= 0 {
        0
    } else {
        piece_count(g, side, m - 1) + row_count(g[m - 1], side, BOARD_SIZE as int)
    }
}

/// How many pieces `side` has on the board.
pub open spec fn pieces_of(g: Grid, side: Side) -> nat {
    piece_count(g, side, BOARD_SIZE as int)
}

proof fn lemma_initial_row(y: int, side: Side)
    requires
        0 <= y < BOARD_SIZE,
    ensures
        row_count(initial_grid()[y], side, BOARD_SIZE as int) == if (side == Side::B && y < 3) || (
        side == Side::A && y >= 5) {
            4nat
        } else {
            0nat
        },
{
    reveal_with_fuel(row_count, 9);
    let row = initial_grid()[y];
    assert(row =~= Seq::new(BOARD_SIZE as nat, |x: int| initial_cell(x, y)));
    if y == 0 {
    } else if y == 1 {
    } else if y == 2 {
    } else if y == 3 {
    } else if y == 4 {
    } else if y == 5 {
    } else if y == 6 {
    } else {
    }
}

/// The starting layout gives each side twelve pieces.
pub proof fn lemma_initial_piece_counts()
    ensures
        pieces_of(initial_grid(), Side::A) == 12,
        pieces_of(initial_grid(), Side::B) == 12,
{
    reveal_with_fuel(piece_count, 9);
    assert forall|k: int| 0 <= k < BOARD_SIZE implies row_count(initial_grid()[k], Side::A, 8) == (
    if k >= 5 {
        4nat
    } else {
        0nat
    }) && row_count(initial_grid()[k], Side::B, 8) == (if k < 3 {
        4nat
    } else {
        0nat
    }) by {
        lemma_initial_row(k, Side::A);
        lemma_initial_row(k, Side::B);
    }
}

/// Whether `target` holds an enemy of `side` weaker than `number`.
pub open spec fn capturable(target: Option<Piece>, side: Side, number: u8) -> bool {
    match target {
        Some(p) => p.side != side && number > p.number,
        None => false,
    }
}

/// Whether the piece of `side` at `(x, y)` can jump in the diagonal
/// direction `(dx, dy)`: the next square holds a weaker enemy and the one
/// beyond it is on the board and empty.
pub open spec fn capture_towards(g: Grid, side: Side, x: int, y: int, dx: int, dy: int) -> bool {
    on_board(x + 2 * dx, y + 2 * dy) && match cell(g, x, y) {
        Some(p) => p.side == side && capturable(cell(g, x + dx, y + dy), side, p.number) && cell(
            g,
            x + 2 * dx,
            y + 2 * dy,
        ) is None,
        None => false,
    }
}

/// Whether the piece of `side` at `(x, y)` has a capture.
pub open spec fn can_capture_from(g: Grid, side: Side, x: int, y: int) -> bool {
    on_board(x, y) && (capture_towards(g, side, x, y, -1, -1) || capture_towards(
        g,
        side,
        x,
        y,
        -1,
        1,
    ) || capture_towards(g, side, x, y, 1, -1) || capture_towards(g, side, x, y, 1, 1))
}

/// Whether `side` has a capture anywhere on the board.
pub open spec fn has_capture(g: Grid, side: Side) -> bool {
    exists|x: int, y: int| #[trigger] can_capture_from(g, side, x, y)
}

/// Whether `p` comes before `q` reading the board row by row.
pub open spec fn row_major_before(p: Position, q: Position) -> bool {
    p.1 < q.1 || (p.1 == q.1 && p.0 < q.0)
}

pub open spec fn abs_diff(a: int, b: int) -> int {
    if a < b {
        b - a
    } else {
        a - b
    }
}

/// A jump over the piece between `from` and `to`, by a piece of strength
/// `n`: the landing square must be empty and the jumped piece a weaker
/// enemy. The jumped piece goes, the mover lands with two thirds of its
/// strength (rounded down), and the turn passes unless `side` still has a
/// capture anywhere.
pub open spec fn capture_outcome(g: Grid, side: Side, from: Position, to: Position, n: u8) -> Result<
    (Grid, bool),
    BoardOperationError,
> {
    let (fx, fy, tx, ty) = (from.0 as int, from.1 as int, to.0 as int, to.1 as int);
    let (mx, my) = ((fx + tx) / 2, (fy + ty) / 2);
    if cell(g, tx, ty) is Some {
        Err(BoardOperationError::InvalidMove)
    } else if !capturable(cell(g, mx, my), side, n) {
        Err(BoardOperationError::InvalidMove)
    } else {
        let landed = Piece { side, number: (n * 2 / 3) as u8 };
        let g2 = set_cell(set_cell(set_cell(g, tx, ty, Some(landed)), mx, my, None), fx, fy, None);
        Ok((g2, !has_capture(g2, side)))
    }
}

/// A one-square diagonal step by a piece of strength `n`, allowed only
/// while `side` has no capture. Onto an empty square the piece moves; onto
/// a piece of its own side, when `n >= 2`, it gives that piece `n / 2`
/// rounded up and keeps `n / 2` rounded down. The turn passes.
pub open spec fn step_outcome(g: Grid, side: Side, from: Position, to: Position, n: u8) -> Result<
    (Grid, bool),
    BoardOperationError,
> {
    let (fx, fy, tx, ty) = (from.0 as int, from.1 as int, to.0 as int, to.1 as int);
    if has_capture(g, side) {
        Err(BoardOperationError::InvalidMove)
    } else {
        match cell(g, tx, ty) {
            None => Ok((set_cell(set_cell(g, tx, ty, cell(g, fx, fy)), fx, fy, None), true)),
            Some(q) => if q.side == side && n >= 2 {
                let merged = Piece { side, number: (q.number + (n + 1) / 2) as u8 };
                let kept = Piece { side, number: n / 2 };
                Ok((set_cell(set_cell(g, tx, ty, Some(merged)), fx, fy, Some(kept)), true))
            } else {
                Err(BoardOperationError::InvalidMove)
            },
        }
    }
}

/// What a move from `from` to `to` by a player of `side` does, when `turn`
/// is to move: the grid after it and whether the turn passed, or the
/// reason it is refused. Checks come in order: squares, turn, piece, shape.
pub open spec fn move_outcome(g: Grid, turn: Side, side: Side, from: Position, to: Position) -> Result<
    (Grid, bool),
    BoardOperationError,
> {
    let (fx, fy, tx, ty) = (from.0 as int, from.1 as int, to.0 as int, to.1 as int);
    if !in_range(from) || !in_range(to) {
        Err(BoardOperationError::InvalidPosition)
    } else if side != turn {
        Err(BoardOperationError::InvalidTurn)
    } else {
        match cell(g, fx, fy) {
            Some(p) => if p.side != side {
                Err(BoardOperationError::InvalidPiece)
            } else if abs_diff(fx, tx) == 2 && abs_diff(fy, ty) == 2 {
                capture_outcome(g, side, from, to, p.number)
            } else if abs_diff(fx, tx) == 1 && abs_diff(fy, ty) == 1 {
                step_outcome(g, side, from, to, p.number)
            } else {
                Err(BoardOperationError::InvalidMove)
            },
            None => Err(BoardOperationError::InvalidPiece),
        }
    }
}

/// A player whose side is not the one to move is refused with
/// `InvalidTurn`, whatever squares on the board the move names.
pub proof fn lemma_wrong_turn_refused(g: Grid, turn: Side, side: Side, from: Position, to: Position)
    requires
        in_range(from),
        in_range(to),
        side != turn,
    ensures
        move_outcome(g, turn, side, from, to) == Err::<(Grid, bool), BoardOperationError>(
            BoardOperationError::InvalidTurn,
        ),
{
}

/// While the side to move has a capture anywhere, every one-square step of
/// one of its pieces is refused with `InvalidMove`.
pub proof fn lemma_forced_capture(g: Grid, side: Side, from: Position, to: Position)
    requires
        in_range(from),
        in_range(to),
        has_capture(g, side),
        abs_diff(from.0 as int, to.0 as int) == 1,
        abs_diff(from.1 as int, to.1 as int) == 1,
        cell(g, from.0 as int, from.1 as int) is Some,
        cell(g, from.0 as int, from.1 as int)->0.side == side,
    ensures
        move_outcome(g, side, side, from, to) == Err::<(Grid, bool), BoardOperationError>(
            BoardOperationError::InvalidMove,
        ),
{
}

/// After a capture the same side moves again exactly when it still has a
/// capture somewhere on the board.
pub proof fn lemma_capture_keeps_turn_while_captures_remain(
    g: Grid,
    side: Side,
    from: Position,
    to: Position,
    n: u8,
)
    requires
        capture_outcome(g, side, from, to, n) is Ok,
    ensures
        ({
            let (g2, toggled) = capture_outcome(g, side, from, to, n)->Ok_0;
            toggled <==> !has_capture(g2, side)
        }),
{
}

// Strength totals: the strengths of one side never sum to more than a
// piece can hold, so a merge cannot overflow.

pub open spec fn piece_value(c: Option<Piece>, side: Side) -> int {
    match c {
        Some(p) => if p.side == side {
            p.number as int
        } else {
            0
        },
        None => 0,
    }
}

pub open spec fn row_total(row: Seq<Option<Piece>>, side: Side) -> int
    decreases row.len(),
{
    if row.len() == 0 {
        0
    } else {
        row_total(row.drop_last(), side) + piece_value(row.last(), side)
    }
}

/// The summed strength of `side`'s pieces.
pub open spec fn grid_total(g: Grid, side: Side) -> int
    decreases g.len(),
{
    if g.len() == 0 {
        0
    } else {
        grid_total(g.drop_last(), side) + row_total(g.last(), side)
    }
}

pub proof fn lemma_row_total_nonneg(row: Seq<Option<Piece>>, side: Side)
    ensures
        row_total(row, side) >= 0,
    decreases row.len(),
{
    if row.len() > 0 {
        lemma_row_total_nonneg(row.drop_last(), side);
    }
}

pub proof fn lemma_grid_total_nonneg(g: Grid, side: Side)
    ensures
        grid_total(g, side) >= 0,
    decreases g.len(),
{
    if g.len() > 0 {
        lemma_grid_total_nonneg(g.drop_last(), side);
        lemma_row_total_nonneg(g.last(), side);
    }
}

pub proof fn lemma_row_total_update(row: Seq<Option<Piece>>, i: int, v: Option<Piece>, side: Side)
    requires
        0 <= i < row.len(),
    ensures
        row_total(row.update(i, v), side) == row_total(row, side) - piece_value(row[i], side)
            + piece_value(v, side),
    decreases row.len(),
{
    let r2 = row.update(i, v);
    if i == row.len() - 1 {
        assert(r2.drop_last() =~= row.drop_last());
    } else {
        lemma_row_total_update(row.drop_last(), i, v, side);
        assert(r2.drop_last() =~= row.drop_last().update(i, v));
    }
}

pub proof fn lemma_grid_total_update(g: Grid, y: int, row: Seq<Option<Piece>>, side: Side)
    requires
        0 <= y < g.len(),
    ensures
        grid_total(g.update(y, row), side) == grid_total(g, side) - row_total(g[y], side)
            + row_total(row, side),
    decreases g.len(),
{
    let g2 = g.update(y, row);
    if y == g.len() - 1 {
        assert(g2.drop_last() =~= g.drop_last());
    } else {
        lemma_grid_total_update(g.drop_last(), y, row, side);
        assert(g2.drop_last() =~= g.drop_last().update(y, row));
    }
}

pub proof fn lemma_set_cell_total(g: Grid, x: int, y: int, v: Option<Piece>, side: Side)
    requires
        0 <= y < g.len(),
        0 <= x < g[y].len(),
    ensures
        grid_total(set_cell(g, x, y, v), side) == grid_total(g, side) - piece_value(
            cell(g, x, y),
            side,
        ) + piece_value(v, side),
{
    lemma_row_total_update(g[y], x, v, side);
    lemma_grid_total_update(g, y, g[y].update(x, v), side);
}

pub proof fn lemma_row_value_le_total(row: Seq<Option<Piece>>, i: int, side: Side)
    requires
        0 <= i < row.len(),
    ensures
        piece_value(row[i], side) <= row_total(row, side),
    decreases row.len(),
{
    if i == row.len() - 1 {
        lemma_row_total_nonneg(row.drop_last(), side);
    } else {
        lemma_row_value_le_total(row.drop_last(), i, side);
        assert(piece_value(row.last(), side) >= 0);
    }
}

pub proof fn lemma_row_le_grid_total(g: Grid, y: int, side: Side)
    requires
        0 <= y < g.len(),
    ensures
        row_total(g[y], side) <= grid_total(g, side),
    decreases g.len(),
{
    if y == g.len() - 1 {
        lemma_grid_total_nonneg(g.drop_last(), side);
    } else {
        lemma_row_le_grid_total(g.drop_last(), y, side);
        lemma_row_total_nonneg(g.last(), side);
    }
}

pub proof fn lemma_cell_le_total(g: Grid, x: int, y: int, side: Side)
    requires
        0 <= y < g.len(),
        0 <= x < g[y].len(),
    ensures
        piece_value(cell(g, x, y), side) <= grid_total(g, side),
{
    lemma_row_value_le_total(g[y], x, side);
    lemma_row_le_grid_total(g, y, side);
}

pub proof fn lemma_row_total_bound(row: Seq<Option<Piece>>, side: Side, k: int)
    requires
        forall|i: int| 0 <= i < row.len() ==> piece_value(#[trigger] row[i], side) <= k,
    ensures
        row_total(row, side) <= k * row.len(),
    decreases row.len(),
{
    if row.len() > 0 {
        lemma_row_total_bound(row.drop_last(), side, k);
        assert(piece_value(row[row.len() - 1], side) <= k);
        assert(k * row.len() == k * (row.len() - 1) + k) by (nonlinear_arith);
    }
}

pub proof fn lemma_grid_total_bound(g: Grid, side: Side, k: int)
    requires
        forall|y: int|
            0 <= y < g.len() ==> forall|x: int|
                0 <= x < (#[trigger] g[y]).len() ==> piece_value(#[trigger] g[y][x], side) <= k,
        forall|y: int| 0 <= y < g.len() ==> (#[trigger] g[y]).len() == BOARD_SIZE,
    ensures
        grid_total(g, side) <= k * BOARD_SIZE * g.len(),
    decreases g.len(),
{
    if g.len() > 0 {
        lemma_grid_total_bound(g.drop_last(), side, k);
        let last = g[g.len() - 1];
        assert forall|i: int| 0 <= i < last.len() implies piece_value(#[trigger] last[i], side)
            <= k by {
            assert(piece_value(g[g.len() - 1][i], side) <= k);
        }
        lemma_row_total_bound(last, side, k);
        assert(k * BOARD_SIZE * g.len() == k * BOARD_SIZE * (g.len() - 1) + k * BOARD_SIZE)
            by (nonlinear_arith);
    }
}

} // verus!
