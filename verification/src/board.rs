//! The board: a fixed grid of optionally-occupied cells with score and level
//! counters and the two piece slots, together with the collision rule, piece
//! settlement, and the row-clearing and scoring engine.

use vstd::prelude::*;

use crate::piece::{offsets_small, Piece};

verus! {

broadcast use vstd::array::group_array_axioms;

/// Number of columns of the board.
pub const WIDTH: usize = 10;

/// Number of rows of the board; row 0 is the top and rows increase downward.
pub const HEIGHT: usize = 32;

/// Whether `g` has the board's shape: `HEIGHT` rows of `WIDTH` cells each.
pub open spec fn grid_wf(g: Seq<Seq<Option<u8>>>) -> bool {
    &&& g.len() == HEIGHT
    &&& forall|r: int| 0 <= r < g.len() ==> (#[trigger] g[r]).len() == WIDTH
}

/// A row with every cell empty.
pub open spec fn empty_row() -> Seq<Option<u8>> {
    Seq::new(WIDTH as nat, |c: int| None::<u8>)
}

/// `n` empty rows.
pub open spec fn empties(n: nat) -> Seq<Seq<Option<u8>>> {
    Seq::new(n, |i: int| empty_row())
}

/// A row is full iff every one of its cells is occupied.
pub open spec fn row_full(row: Seq<Option<u8>>) -> bool {
    forall|c: int| 0 <= c < row.len() ==> (#[trigger] row[c]) is Some
}

/// The rows of `g` that are not full, in their original order.
pub open spec fn kept_rows(g: Seq<Seq<Option<u8>>>) -> Seq<Seq<Option<u8>>> {
    g.filter(|row: Seq<Option<u8>>| !row_full(row))
}

/// How many rows of `g` are full: the rows that clearing removes.
pub open spec fn count_full(g: Seq<Seq<Option<u8>>>) -> nat {
    (g.len() - kept_rows(g).len()) as nat
}

/// The grid after clearing every full row of `g`: the full rows are removed,
/// the other rows keep their order and sink to the bottom, and as many empty
/// rows enter at the top.
pub open spec fn cleared(g: Seq<Seq<Option<u8>>>) -> Seq<Seq<Option<u8>>> {
    empties(count_full(g)) + kept_rows(g)
}

/// The score a settlement earns from clearing `n` rows at once.
pub open spec fn score_delta(n: nat) -> nat {
    if n == 1 {
        50
    } else if n == 2 {
        120
    } else if n == 3 {
        180
    } else if n == 4 {
        250
    } else {
        n
    }
}

/// The absolute board column of block `k` of piece `p`.
pub open spec fn block_col(p: Piece, k: int) -> int {
    p.position.0 + p.blocks@[k].0
}

/// The absolute board row of block `k` of piece `p`.
pub open spec fn block_row(p: Piece, k: int) -> int {
    p.position.1 + p.blocks@[k].1
}

/// Block `k` of piece `p` is out of the board or lands on an occupied cell.
pub open spec fn block_illegal(g: Seq<Seq<Option<u8>>>, p: Piece, k: int) -> bool {
    ||| !(0 <= block_col(p, k) < WIDTH)
    ||| !(0 <= block_row(p, k) < HEIGHT)
    ||| g[block_row(p, k)][block_col(p, k)] is Some
}

/// The collision rule: a placement is illegal iff some block of the piece is
/// outside `[0, WIDTH) x [0, HEIGHT)` or targets an occupied cell.
pub open spec fn spec_collision(g: Seq<Seq<Option<u8>>>, p: Piece) -> bool {
    exists|k: int| 0 <= k < 4 && #[trigger] block_illegal(g, p, k)
}

/// Some block among the first `n` of piece `p` sits at row `r`, column `c`.
pub open spec fn covers_upto(p: Piece, n: int, r: int, c: int) -> bool {
    exists|k: int|
        #![trigger block_row(p, k), block_col(p, k)]
        0 <= k < n && block_row(p, k) == r && block_col(p, k) == c
}

/// Some block of piece `p` sits at row `r`, column `c`.
pub open spec fn covers(p: Piece, r: int, c: int) -> bool {
    covers_upto(p, 4, r, c)
}

/// `g` with the first `n` blocks of `p` written in as the piece's color.
pub open spec fn place_upto(g: Seq<Seq<Option<u8>>>, p: Piece, n: int) -> Seq<Seq<Option<u8>>> {
    Seq::new(
        g.len(),
        |r: int|
            Seq::new(
                g[r].len(),
                |c: int| if covers_upto(p, n, r, c) { Some(p.color) } else { g[r][c] },
            ),
    )
}

/// `g` with all four blocks of `p` written in as the piece's color.
pub open spec fn place_piece(g: Seq<Seq<Option<u8>>>, p: Piece) -> Seq<Seq<Option<u8>>> {
    place_upto(g, p, 4)
}

/// The game board: the grid of cells, the score and level counters, and the
/// active and stored piece slots.
pub struct Firetris {
    /// The cell contents, `cells[row][column]`; `None` is an empty cell, and
    /// an occupied cell carries the color identity of the piece it came from.
    pub cells: Vec<Vec<Option<u8>>>,
    pub score: usize,
    pub level: u8,
    pub active_piece: Option<Piece>,
    pub stored_piece: Option<Piece>,
}

impl Firetris {
    /// The grid of cells as a mathematical value.
    pub open spec fn grid(self) -> Seq<Seq<Option<u8>>> {
        self.cells@.map_values(|row: Vec<Option<u8>>| row@)
    }

    /// The board's invariant: the grid has its fixed shape.
    pub open spec fn wf(self) -> bool {
        grid_wf(self.grid())
    }

    /// Creates a new game board: all cells empty, score 0, level 1, and no
    /// active or stored piece.
    pub fn new() -> (board: Firetris)
        ensures
            board.wf(),
            board.grid() == empties(HEIGHT as nat),
            board.score == 0,
            board.level == 1,
            board.active_piece is None,
            board.stored_piece is None,
    {
        let mut cells: Vec<Vec<Option<u8>>> = Vec::new();
        while cells.len() < HEIGHT
            invariant
                cells@.len() <= HEIGHT,
                forall|r: int| 0 <= r < cells@.len() ==> (#[trigger] cells@[r])@ == empty_row(),
            decreases HEIGHT - cells@.len(),
        {
            cells.push(empty_row_vec());
        }
        let board = Firetris {
            cells,
            score: 0,
            level: 1,
            active_piece: None,
            stored_piece: None,
        };
        proof {
            assert(board.grid() =~= empties(HEIGHT as nat));
        }
        board
    }
}

impl Firetris {
    /// Sets one cell, leaving everything else unchanged.
    fn set_cell(&mut self, r: usize, c: usize, v: Option<u8>)
        requires
            old(self).wf(),
            r < HEIGHT,
            c < WIDTH,
        ensures
            final(self).wf(),
            final(self).grid() == old(self).grid().update(
                r as int,
                old(self).grid()[r as int].update(c as int, v),
            ),
            final(self).score == old(self).score,
            final(self).level == old(self).level,
            final(self).active_piece == old(self).active_piece,
            final(self).stored_piece == old(self).stored_piece,
    {
        proof {
            assert(self.grid()[r as int] == self.cells@[r as int]@);
            assert(self.grid()[r as int].len() == WIDTH);
        }
        let row = &mut self.cells[r];
        row[c] = v;
        proof {
            assert(self.grid() =~= old(self).grid().update(
                r as int,
                old(self).grid()[r as int].update(c as int, v),
            ));
        }
    }

    /// Removes row `row` and slides everything above it one row down, which
    /// leaves a fresh empty row at the top: afterwards row 0 is entirely
    /// empty, every row previously above `row` is one row lower, and the rows
    /// below `row` are unchanged.
    pub fn clear_row(&mut self, row: usize)
        requires
            old(self).wf(),
            row < HEIGHT,
        ensures
            final(self).wf(),
            final(self).grid() == old(self).grid().remove(row as int).insert(0, empty_row()),
            final(self).grid()[0] == empty_row(),
            forall|i: int| 1 <= i <= row ==> final(self).grid()[i] == old(self).grid()[i - 1],
            forall|i: int| row < i < HEIGHT ==> final(self).grid()[i] == old(self).grid()[i],
            final(self).score == old(self).score,
            final(self).level == old(self).level,
            final(self).active_piece == old(self).active_piece,
            final(self).stored_piece == old(self).stored_piece,
    {
        let _removed = self.cells.remove(row);
        let empty = empty_row_vec();
        self.cells.insert(0, empty);
        proof {
            assert(self.grid() =~= old(self).grid().remove(row as int).insert(0, empty_row()));
        }
    }
}

impl Firetris {
    /// Scans the board for full rows, adds their score to the score counter,
    /// and clears them: each full row is removed in ascending index order and
    /// an empty row enters at the top in its stead.
    pub fn check_filled_lines(&mut self)
        requires
            old(self).wf(),
            old(self).score + score_delta(count_full(old(self).grid())) <= usize::MAX,
        ensures
            final(self).wf(),
            final(self).grid() == cleared(old(self).grid()),
            final(self).score == old(self).score + score_delta(count_full(old(self).grid())),
            final(self).level == old(self).level,
            final(self).active_piece == old(self).active_piece,
            final(self).stored_piece == old(self).stored_piece,
    {
        let ghost g0 = self.grid();
        proof {
            lemma_kept_rows_empty();
            assert(g0.take(0) =~= Seq::<Seq<Option<u8>>>::empty());
            assert(empties(0) + kept_rows(g0.take(0)) + g0.skip(0) =~= g0);
        }
        let mut cleared_count: usize = 0;
        let mut r: usize = 0;
        while r < HEIGHT
            invariant
                self.wf(),
                grid_wf(g0),
                r <= HEIGHT,
                cleared_count as int == r - kept_rows(g0.take(r as int)).len(),
                kept_rows(g0.take(r as int)).len() <= r,
                self.grid() == empties(cleared_count as nat) + kept_rows(g0.take(r as int))
                    + g0.skip(r as int),
                g0 == old(self).grid(),
                self.score == old(self).score,
                self.level == old(self).level,
                self.active_piece == old(self).active_piece,
                self.stored_piece == old(self).stored_piece,
            decreases HEIGHT - r,
        {
            proof {
                assert(self.grid()[r as int] == self.cells@[r as int]@);
                assert(self.grid()[r as int] == g0[r as int]);
            }
            let full = row_is_full(&self.cells[r]);
            proof {
                lemma_take_snoc(g0, r as int);
                lemma_kept_rows_push(g0.take(r as int), g0[r as int]);
            }
            if full {
                self.clear_row(r);
                proof {
                    assert(self.grid() =~= empties((cleared_count + 1) as nat) + kept_rows(
                        g0.take(r as int + 1),
                    ) + g0.skip(r as int + 1));
                }
                cleared_count += 1;
            } else {
                proof {
                    assert(self.grid() =~= empties(cleared_count as nat) + kept_rows(
                        g0.take(r as int + 1),
                    ) + g0.skip(r as int + 1));
                }
            }
            r += 1;
        }
        proof {
            assert(g0.take(HEIGHT as int) =~= g0);
            assert(empties(cleared_count as nat) + kept_rows(g0) + g0.skip(HEIGHT as int) =~=
                cleared(g0));
        }
        let delta = score_for(cleared_count);
        self.score = self.score + delta;
    }
}

impl Firetris {
    /// Commits the active piece into the board: writes each of its four
    /// blocks at their absolute coordinates, storing the piece's color, then
    /// clears and scores any rows this completed. The caller guarantees that
    /// the piece's current placement is collision-free, so settlement never
    /// writes outside the board and never overwrites an occupied cell.
    pub fn settle(&mut self)
        requires
            old(self).wf(),
            old(self).active_piece is Some,
            !spec_collision(old(self).grid(), old(self).active_piece.unwrap()),
            old(self).score + score_delta(
                count_full(place_piece(old(self).grid(), old(self).active_piece.unwrap())),
            ) <= usize::MAX,
        ensures
            final(self).wf(),
            final(self).grid() == cleared(
                place_piece(old(self).grid(), old(self).active_piece.unwrap()),
            ),
            final(self).score == old(self).score + score_delta(
                count_full(place_piece(old(self).grid(), old(self).active_piece.unwrap())),
            ),
            final(self).level == old(self).level,
            final(self).active_piece == old(self).active_piece,
            final(self).stored_piece == old(self).stored_piece,
    {
        let piece = self.active_piece.unwrap();
        let ghost g0 = self.grid();
        proof {
            assert(self.grid() =~~= place_upto(g0, piece, 0));
        }
        let mut k: usize = 0;
        while k < 4
            invariant
                self.wf(),
                grid_wf(g0),
                k <= 4,
                piece == old(self).active_piece.unwrap(),
                !spec_collision(g0, piece),
                self.grid() == place_upto(g0, piece, k as int),
                g0 == old(self).grid(),
                self.score == old(self).score,
                self.level == old(self).level,
                self.active_piece == old(self).active_piece,
                self.stored_piece == old(self).stored_piece,
            decreases 4 - k,
        {
            proof {
                assert(!block_illegal(g0, piece, k as int));
            }
            let x = piece.position.0 + piece.blocks[k].0;
            let y = piece.position.1 + piece.blocks[k].1;
            self.set_cell(y as usize, x as usize, Some(piece.color));
            proof {
                let ki = k as int;
                assert forall|rr: int, cc: int|
                    0 <= rr < g0.len() && 0 <= cc < g0[rr].len() && !(rr == block_row(piece, ki)
                        && cc == block_col(piece, ki)) implies covers_upto(piece, ki + 1, rr, cc)
                    == covers_upto(piece, ki, rr, cc) by {
                    if covers_upto(piece, ki + 1, rr, cc) {
                        let j = choose|j: int|
                            0 <= j < ki + 1 && block_row(piece, j) == rr && block_col(piece, j)
                                == cc;
                        assert(j != ki);
                        assert(covers_upto(piece, ki, rr, cc));
                    }
                    if covers_upto(piece, ki, rr, cc) {
                        let j = choose|j: int|
                            0 <= j < ki && block_row(piece, j) == rr && block_col(piece, j) == cc;
                        assert(0 <= j < ki + 1 && block_row(piece, j) == rr && block_col(piece, j)
                            == cc);
                    }
                }
                assert(covers_upto(piece, ki + 1, block_row(piece, ki), block_col(piece, ki)));
                assert(self.grid() =~~= place_upto(g0, piece, ki + 1));
            }
            k += 1;
        }
        self.check_filled_lines();
    }
}

/// Settlement of a collision-free piece writes only inside the board and
/// never conflates occupants: the grid keeps its shape, and every cell that
/// was already occupied keeps exactly its old value.
pub proof fn lemma_settle_preserves_occupants(g: Seq<Seq<Option<u8>>>, p: Piece)
    requires
        grid_wf(g),
        !spec_collision(g, p),
    ensures
        grid_wf(place_piece(g, p)),
        forall|r: int, c: int|
            0 <= r < HEIGHT && 0 <= c < WIDTH && g[r][c] is Some ==> place_piece(g, p)[r][c]
                == g[r][c],
{
    assert forall|r: int, c: int|
        0 <= r < HEIGHT && 0 <= c < WIDTH && g[r][c] is Some implies place_piece(g, p)[r][c]
        == g[r][c] by {
        if covers(p, r, c) {
            let j = choose|j: int|
                0 <= j < 4 && block_row(p, j) == r && block_col(p, j) == c;
            assert(block_illegal(g, p, j));
            assert(false);
        }
    }
    assert forall|r: int| 0 <= r < place_piece(g, p).len() implies (#[trigger] place_piece(g, p)[r]).len()
        == WIDTH by {
        assert(g[r].len() == WIDTH);
    }
}

/// The collision detector rejects any placement with a block column outside
/// `[0, WIDTH)` or row outside `[0, HEIGHT)`, whatever the board's occupancy.
pub proof fn lemma_out_of_bounds_collides(g: Seq<Seq<Option<u8>>>, p: Piece, k: int)
    requires
        0 <= k < 4,
        !(0 <= block_col(p, k) < WIDTH) || !(0 <= block_row(p, k) < HEIGHT),
    ensures
        spec_collision(g, p),
{
    assert(block_illegal(g, p, k));
}

/// A collision-free piece with offsets within `[-2, 2]` sits on the board,
/// so its position lies well inside `i8`'s range.
pub proof fn lemma_legal_position_bounds(g: Seq<Seq<Option<u8>>>, p: Piece)
    requires
        !spec_collision(g, p),
        offsets_small(p),
    ensures
        -2 <= p.position.0 <= 11,
        -2 <= p.position.1 <= 33,
{
    assert(!block_illegal(g, p, 0));
    assert(-2 <= p.blocks@[0].0 <= 2 && -2 <= p.blocks@[0].1 <= 2);
}

/// Clearing zero full rows leaves the grid unchanged and adds no score: on a
/// grid with no full row, the cleared grid is the grid itself and the score
/// delta is zero.
pub proof fn lemma_clear_zero_rows(g: Seq<Seq<Option<u8>>>)
    requires
        forall|r: int| 0 <= r < g.len() ==> !row_full(#[trigger] g[r]),
    ensures
        count_full(g) == 0,
        cleared(g) == g,
        score_delta(count_full(g)) == 0,
{
    lemma_kept_rows_all(g);
    assert(cleared(g) =~= g);
}

/// The scoring table: clearing exactly 1, 2, 3 or 4 rows in one settlement
/// adds exactly 50, 120, 180 or 250 points, and clearing none adds nothing.
pub proof fn lemma_score_table()
    ensures
        score_delta(0) == 0,
        score_delta(1) == 50,
        score_delta(2) == 120,
        score_delta(3) == 180,
        score_delta(4) == 250,
{
}

/// One settlement adds at most 250 to the score.
pub proof fn lemma_score_delta_bound(g: Seq<Seq<Option<u8>>>)
    requires
        grid_wf(g),
    ensures
        score_delta(count_full(g)) <= 250,
{
}

/// The prefix of length `r + 1` is the prefix of length `r` plus row `r`.
proof fn lemma_take_snoc(g: Seq<Seq<Option<u8>>>, r: int)
    requires
        0 <= r < g.len(),
    ensures
        g.take(r + 1) == g.take(r).push(g[r]),
{
    assert(g.take(r + 1) =~= g.take(r).push(g[r]));
}

/// The score table on the number of rows cleared by one settlement.
fn score_for(n: usize) -> (delta: usize)
    ensures
        delta == score_delta(n as nat),
{
    match n {
        1 => 50,
        2 => 120,
        3 => 180,
        4 => 250,
        _ => n,
    }
}

/// No row survives filtering an empty grid.
proof fn lemma_kept_rows_empty()
    ensures
        kept_rows(Seq::<Seq<Option<u8>>>::empty()) == Seq::<Seq<Option<u8>>>::empty(),
{
    reveal_with_fuel(Seq::filter, 1);
}

/// Filtering out the full rows commutes with appending one row at the end.
proof fn lemma_kept_rows_push(g: Seq<Seq<Option<u8>>>, row: Seq<Option<u8>>)
    ensures
        kept_rows(g.push(row)) == if row_full(row) {
            kept_rows(g)
        } else {
            kept_rows(g).push(row)
        },
{
    reveal_with_fuel(Seq::filter, 2);
    assert(g.push(row).drop_last() =~= g);
    assert(g.push(row).last() == row);
}

/// A grid with no full row is kept whole.
proof fn lemma_kept_rows_all(g: Seq<Seq<Option<u8>>>)
    requires
        forall|r: int| 0 <= r < g.len() ==> !row_full(#[trigger] g[r]),
    ensures
        kept_rows(g) == g,
    decreases g.len(),
{
    if g.len() == 0 {
        lemma_kept_rows_empty();
        assert(g =~= Seq::<Seq<Option<u8>>>::empty());
    } else {
        lemma_kept_rows_all(g.drop_last());
        lemma_kept_rows_push(g.drop_last(), g.last());
        assert(g.drop_last().push(g.last()) =~= g);
    }
}

/// Whether every cell of `row` is occupied.
fn row_is_full(row: &Vec<Option<u8>>) -> (full: bool)
    ensures
        full == row_full(row@),
{
    let mut c: usize = 0;
    while c < row.len()
        invariant
            c <= row@.len(),
            forall|j: int| 0 <= j < c ==> (#[trigger] row@[j]) is Some,
        decreases row@.len() - c,
    {
        if row[c].is_none() {
            return false;
        }
        c += 1;
    }
    true
}

/// Builds one all-empty row.
fn empty_row_vec() -> (v: Vec<Option<u8>>)
    ensures
        v@ == empty_row(),
{
    let mut v: Vec<Option<u8>> = Vec::new();
    while v.len() < WIDTH
        invariant
            v@.len() <= WIDTH,
            forall|c: int| 0 <= c < v@.len() ==> (#[trigger] v@[c]) is None,
        decreases WIDTH - v@.len(),
    {
        v.push(None);
    }
    proof {
        assert(v@ =~= empty_row());
    }
    v
}

} // verus!
