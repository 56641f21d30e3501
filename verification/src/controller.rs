//! The command/tick state machine: accepts discrete player commands and
//! periodic gravity ticks, validates every candidate move through the
//! collision detector, and invokes settlement when the active piece can no
//! longer descend.

use rand::Rng;
use vstd::prelude::*;

use crate::board::{
    block_illegal, cleared, count_full, lemma_legal_position_bounds,
    lemma_score_delta_bound, lemma_settle_preserves_occupants, place_piece, score_delta,
    spec_collision, Firetris, HEIGHT, WIDTH,
};
use crate::piece::{
    lemma_catalog_offsets_small, lemma_rotation_offsets_small, offsets_small, shape_of_index,
    spec_dropped, spec_from, spec_moved_left, spec_moved_right, spec_rotated, spec_shape_of,
    with_row, Piece, PieceType,
};

verus! {

/// A discrete player command.
#[derive(Clone, Copy, PartialEq, Eq, Debug)]
pub enum Command {
    Spawn,
    MoveLeft,
    MoveRight,
    Rotate,
    SoftDrop,
    HardDrop,
}

/// Drives one game: owns the board and dispatches commands and gravity
/// ticks against it.
pub struct FiretrisController {
    /// The game state the controller drives.
    pub firetris: Firetris,
    /// Whether the game has ended: set when a spawned piece's initial
    /// position is itself illegal. Terminal: afterwards every command and
    /// tick leaves the state unchanged.
    pub game_over: bool,
}

impl FiretrisController {
    /// The controller's invariant: the board is well-formed, an active piece
    /// is always at a collision-free position with catalog-sized offsets,
    /// and a finished game holds no active piece.
    pub open spec fn wf(self) -> bool {
        &&& self.firetris.wf()
        &&& self.firetris.active_piece matches Some(p) ==> !spec_collision(self.firetris.grid(), p)
            && offsets_small(p)
        &&& self.game_over ==> self.firetris.active_piece is None
    }

    /// Creates a controller around a board.
    pub fn new(firetris: Firetris) -> (ctl: FiretrisController)
        requires
            firetris.wf(),
            firetris.active_piece matches Some(p) ==> !spec_collision(firetris.grid(), p)
                && offsets_small(p),
        ensures
            ctl.firetris == firetris,
            !ctl.game_over,
            ctl.wf(),
    {
        FiretrisController { firetris, game_over: false }
    }

    /// The collision detector: whether placing `next` on the board is
    /// illegal, that is, some block of it falls outside the board or on an
    /// occupied cell. Read-only; the sole arbiter of move legality.
    pub fn collision(&self, next: &Piece) -> (hit: bool)
        requires
            self.firetris.wf(),
        ensures
            hit == spec_collision(self.firetris.grid(), *next),
    {
        let mut k: usize = 0;
        while k < 4
            invariant
                self.firetris.wf(),
                k <= 4,
                forall|j: int| 0 <= j < k ==> !block_illegal(self.firetris.grid(), *next, j),
            decreases 4 - k,
        {
            let col = next.position.0 as i16 + next.blocks[k].0 as i16;
            let row = next.position.1 as i16 + next.blocks[k].1 as i16;
            if col < 0 || col >= WIDTH as i16 || row < 0 || row >= HEIGHT as i16 {
                proof {
                    assert(block_illegal(self.firetris.grid(), *next, k as int));
                }
                return true;
            }
            proof {
                assert(self.firetris.grid()[row as int] == self.firetris.cells@[row as int]@);
            }
            if self.firetris.cells[row as usize][col as usize].is_some() {
                proof {
                    assert(block_illegal(self.firetris.grid(), *next, k as int));
                }
                return true;
            }
            proof {
                assert(!block_illegal(self.firetris.grid(), *next, k as int));
            }
            k += 1;
        }
        false
    }
}

/// What `Spawn` does when the game is not over: the board's cells, score and
/// level are untouched; the spawn piece of shape `t` becomes the active piece
/// if its initial position is legal, and otherwise the game ends with no
/// active piece.
pub open spec fn spawned(pre: FiretrisController, post: FiretrisController, t: PieceType) -> bool {
    &&& post.firetris.grid() == pre.firetris.grid()
    &&& post.firetris.score == pre.firetris.score
    &&& post.firetris.level == pre.firetris.level
    &&& post.firetris.stored_piece == pre.firetris.stored_piece
    &&& if !spec_collision(pre.firetris.grid(), spec_from(t)) {
        post.firetris.active_piece == Some(spec_from(t)) && !post.game_over
    } else {
        post.firetris.active_piece is None && post.game_over
    }
}

/// What a validated move does: the candidate replaces the active piece if
/// the collision detector allows it, and otherwise nothing changes.
pub open spec fn attempted(
    pre: FiretrisController,
    post: FiretrisController,
    candidate: Piece,
) -> bool {
    if spec_collision(pre.firetris.grid(), candidate) {
        post == pre
    } else {
        &&& post.game_over == pre.game_over
        &&& post.firetris.grid() == pre.firetris.grid()
        &&& post.firetris.score == pre.firetris.score
        &&& post.firetris.level == pre.firetris.level
        &&& post.firetris.stored_piece == pre.firetris.stored_piece
        &&& post.firetris.active_piece == Some(candidate)
    }
}

impl FiretrisController {
    /// Handles `Spawn`: constructs the spawn piece of the given shape and
    /// makes it the active piece, unless its initial position is already
    /// illegal, in which case the game ends.
    pub fn spawn(&mut self, shape: PieceType)
        requires
            old(self).firetris.wf(),
        ensures
            final(self).firetris.wf(),
            old(self).game_over ==> *final(self) == *old(self),
            !old(self).game_over ==> final(self).wf() && spawned(
                *old(self),
                *final(self),
                shape,
            ),
    {
        if self.game_over {
            return;
        }
        let piece = Piece::from(&shape);
        if self.collision(&piece) {
            self.firetris.active_piece = None;
            self.game_over = true;
        } else {
            self.firetris.active_piece = Some(piece);
            proof {
                lemma_catalog_offsets_small(shape);
            }
        }
    }

    /// Replaces the active piece with `candidate` if the collision detector
    /// allows it; otherwise discards the candidate.
    fn try_replace(&mut self, candidate: Piece)
        requires
            old(self).wf(),
            !old(self).game_over,
            offsets_small(candidate),
        ensures
            final(self).wf(),
            attempted(*old(self), *final(self), candidate),
    {
        if !self.collision(&candidate) {
            self.firetris.active_piece = Some(candidate);
        }
    }
}

/// Piece `p` comes to rest at row `y`: descending from its current row, every
/// placement down to and including row `y` is collision-free, and the
/// placement one row further is not. Each piece has at most one such row, so
/// a hard drop and one-step drops repeated until rejection agree.
pub open spec fn rests_at(g: Seq<Seq<Option<u8>>>, p: Piece, y: int) -> bool {
    &&& p.position.1 <= y
    &&& forall|j: int|
        p.position.1 <= j <= y ==> !(#[trigger] spec_collision(g, with_row(p, j as i8)))
    &&& spec_collision(g, with_row(p, (y + 1) as i8))
}

/// The resting row is unique: a piece that rests at `y1` and at `y2` rests at
/// one row. Hard drop commits the resting position directly; soft drops or
/// gravity ticks repeated until one is rejected stop at a resting position
/// too, so the two ways down end at the same place.
pub proof fn lemma_rest_row_unique(g: Seq<Seq<Option<u8>>>, p: Piece, y1: int, y2: int)
    requires
        rests_at(g, p, y1),
        rests_at(g, p, y2),
    ensures
        y1 == y2,
{
    if y1 < y2 {
        assert(!spec_collision(g, with_row(p, (y1 + 1) as i8)));
        assert(false);
    }
    if y2 < y1 {
        assert(!spec_collision(g, with_row(p, (y2 + 1) as i8)));
        assert(false);
    }
}

/// A legal piece whose one-row drop the collision detector rejects is
/// resting at its own row. So repeated soft drops or gravity ticks, which
/// descend one row at a time while the detector allows it, stop at a resting
/// row, and by its uniqueness at the very row a hard drop commits.
pub proof fn lemma_rejected_drop_rests(g: Seq<Seq<Option<u8>>>, p: Piece)
    requires
        !spec_collision(g, p),
        spec_collision(g, spec_dropped(p)),
    ensures
        rests_at(g, p, p.position.1 as int),
{
    let y = p.position.1 as int;
    assert(with_row(p, y as i8) == p);
    assert(with_row(p, (y + 1) as i8) == spec_dropped(p));
}

/// What `HardDrop` does when a piece is falling: the board is untouched and
/// the active piece moves straight down to its resting row.
pub open spec fn hard_dropped(pre: FiretrisController, post: FiretrisController, p: Piece) -> bool {
    &&& post.game_over == pre.game_over
    &&& post.firetris.grid() == pre.firetris.grid()
    &&& post.firetris.score == pre.firetris.score
    &&& post.firetris.level == pre.firetris.level
    &&& post.firetris.stored_piece == pre.firetris.stored_piece
    &&& post.firetris.active_piece matches Some(q) && q == with_row(p, q.position.1) && rests_at(
        pre.firetris.grid(),
        p,
        q.position.1 as int,
    )
}

/// What one command does to the machine when the game is not over, given the
/// shape `t` that a `Spawn` would draw: movement and rotation candidates are
/// committed only if the collision detector allows them, and no command
/// settles a piece or touches the score.
pub open spec fn command_outcome(
    pre: FiretrisController,
    post: FiretrisController,
    cmd: Command,
    t: PieceType,
) -> bool {
    match cmd {
        Command::Spawn => spawned(pre, post, t),
        Command::MoveLeft => match pre.firetris.active_piece {
            None => post == pre,
            Some(p) => attempted(pre, post, spec_moved_left(p)),
        },
        Command::MoveRight => match pre.firetris.active_piece {
            None => post == pre,
            Some(p) => attempted(pre, post, spec_moved_right(p)),
        },
        Command::Rotate => match pre.firetris.active_piece {
            None => post == pre,
            Some(p) => attempted(pre, post, spec_rotated(p)),
        },
        Command::SoftDrop => match pre.firetris.active_piece {
            None => post == pre,
            Some(p) => attempted(pre, post, spec_dropped(p)),
        },
        Command::HardDrop => match pre.firetris.active_piece {
            None => post == pre,
            Some(p) => hard_dropped(pre, post, p),
        },
    }
}

/// What a gravity tick does when the active piece can no longer descend: the
/// piece settles into the board, full rows are cleared and scored, and the
/// spawn piece of shape `t` enters, unless its position is illegal, which
/// ends the game.
pub open spec fn settled_and_spawned(
    pre: FiretrisController,
    post: FiretrisController,
    p: Piece,
    t: PieceType,
) -> bool {
    let placed = place_piece(pre.firetris.grid(), p);
    &&& post.firetris.grid() == cleared(placed)
    &&& post.firetris.score == pre.firetris.score + score_delta(count_full(placed))
    &&& post.firetris.level == pre.firetris.level
    &&& post.firetris.stored_piece == pre.firetris.stored_piece
    &&& if !spec_collision(cleared(placed), spec_from(t)) {
        post.firetris.active_piece == Some(spec_from(t)) && !post.game_over
    } else {
        post.firetris.active_piece is None && post.game_over
    }
}

/// What one gravity tick does, given the shape `t` drawn if a settlement
/// spawns: with no active piece nothing happens; a piece that can descend
/// one row does so; a piece that cannot settles, rows clear and score, and a
/// new piece spawns.
pub open spec fn tick_outcome(
    pre: FiretrisController,
    post: FiretrisController,
    t: PieceType,
) -> bool {
    match pre.firetris.active_piece {
        None => post == pre,
        Some(p) => if !spec_collision(pre.firetris.grid(), spec_dropped(p)) {
            &&& post.game_over == pre.game_over
            &&& post.firetris.grid() == pre.firetris.grid()
            &&& post.firetris.score == pre.firetris.score
            &&& post.firetris.level == pre.firetris.level
            &&& post.firetris.stored_piece == pre.firetris.stored_piece
            &&& post.firetris.active_piece == Some(spec_dropped(p))
        } else {
            settled_and_spawned(pre, post, p, t)
        },
    }
}

impl FiretrisController {
    /// Dispatches one command with the shape a `Spawn` would use, so that
    /// deterministic sequences can be driven in tests. Commands are rejected
    /// silently when illegal; none of them settles a piece; everything is a
    /// no-op once the game is over.
    pub fn handle_command_with_shape(&mut self, cmd: Command, shape: PieceType)
        requires
            old(self).wf(),
        ensures
            final(self).wf(),
            old(self).game_over ==> *final(self) == *old(self),
            !old(self).game_over ==> command_outcome(*old(self), *final(self), cmd, shape),
    {
        if self.game_over {
            return;
        }
        match cmd {
            Command::Spawn => {
                self.spawn(shape);
            },
            Command::MoveLeft => {
                let active = self.firetris.active_piece;
                match active {
                    None => {},
                    Some(p) => {
                        proof {
                            lemma_legal_position_bounds(self.firetris.grid(), p);
                        }
                        let candidate = p.left();
                        self.try_replace(candidate);
                    },
                }
            },
            Command::MoveRight => {
                let active = self.firetris.active_piece;
                match active {
                    None => {},
                    Some(p) => {
                        proof {
                            lemma_legal_position_bounds(self.firetris.grid(), p);
                        }
                        let candidate = p.right();
                        self.try_replace(candidate);
                    },
                }
            },
            Command::Rotate => {
                let active = self.firetris.active_piece;
                match active {
                    None => {},
                    Some(p) => {
                        let candidate = p.rotate();
                        proof {
                            lemma_rotation_offsets_small(candidate, p);
                        }
                        self.try_replace(candidate);
                    },
                }
            },
            Command::SoftDrop => {
                let active = self.firetris.active_piece;
                match active {
                    None => {},
                    Some(p) => {
                        proof {
                            lemma_legal_position_bounds(self.firetris.grid(), p);
                        }
                        let candidate = p.drop();
                        self.try_replace(candidate);
                    },
                }
            },
            Command::HardDrop => {
                self.hard_drop();
            },
        }
    }

    /// Handles `HardDrop`: descends the active piece one row at a time until
    /// the next step would collide, and commits the last legal position. No
    /// settlement happens; the piece rests there until the next tick.
    fn hard_drop(&mut self)
        requires
            old(self).wf(),
            !old(self).game_over,
        ensures
            final(self).wf(),
            match old(self).firetris.active_piece {
                None => *final(self) == *old(self),
                Some(p) => hard_dropped(*old(self), *final(self), p),
            },
    {
        let active = self.firetris.active_piece;
        match active {
            None => {},
            Some(p) => {
                proof {
                    lemma_legal_position_bounds(self.firetris.grid(), p);
                    assert(with_row(p, p.position.1) == p);
                }
                let ghost g = self.firetris.grid();
                let mut next = p;
                let mut candidate = p.drop();
                while !self.collision(&candidate)
                    invariant
                        *self == *old(self),
                        self.wf(),
                        g == self.firetris.grid(),
                        self.firetris.active_piece == Some(p),
                        offsets_small(p),
                        !spec_collision(g, p),
                        next == with_row(p, next.position.1),
                        p.position.1 <= next.position.1 <= 33,
                        candidate == with_row(p, (next.position.1 + 1) as i8),
                        candidate.position.1 == next.position.1 + 1,
                        forall|j: int|
                            p.position.1 <= j <= next.position.1 ==> !(#[trigger] spec_collision(
                                g,
                                with_row(p, j as i8),
                            )),
                    decreases 40 - next.position.1,
                {
                    next = candidate;
                    proof {
                        assert(offsets_small(next));
                        lemma_legal_position_bounds(g, next);
                    }
                    candidate = next.drop();
                }
                proof {
                    let yn = next.position.1 as int;
                    assert(!spec_collision(g, with_row(p, yn as i8)));
                    assert(with_row(p, yn as i8) == next);
                    assert(!spec_collision(g, next));
                    assert(rests_at(g, p, yn));
                }
                self.try_replace(next);
            },
        }
    }

    /// Dispatches one command, drawing the shape for a `Spawn` uniformly at
    /// random.
    pub fn handle_command(&mut self, cmd: Command)
        requires
            old(self).wf(),
        ensures
            final(self).wf(),
            old(self).game_over ==> *final(self) == *old(self),
            !old(self).game_over ==> exists|t: PieceType|
                command_outcome(*old(self), *final(self), cmd, t),
    {
        let shape = random_piece_type();
        self.handle_command_with_shape(cmd, shape);
    }

    /// One gravity tick with the shape a settlement's spawn would use, so
    /// that deterministic sequences can be driven in tests: the active piece
    /// descends one row if it can; otherwise it settles, full rows clear and
    /// score, and a new piece spawns.
    pub fn gravity_tick_with_shape(&mut self, shape: PieceType)
        requires
            old(self).wf(),
            old(self).firetris.score + 250 <= usize::MAX,
        ensures
            final(self).wf(),
            tick_outcome(*old(self), *final(self), shape),
    {
        let active = self.firetris.active_piece;
        match active {
            None => {},
            Some(p) => {
                proof {
                    lemma_legal_position_bounds(self.firetris.grid(), p);
                }
                let candidate = p.drop();
                if !self.collision(&candidate) {
                    self.firetris.active_piece = Some(candidate);
                } else {
                    proof {
                        lemma_settle_preserves_occupants(self.firetris.grid(), p);
                        lemma_score_delta_bound(place_piece(self.firetris.grid(), p));
                    }
                    self.firetris.settle();
                    self.spawn(shape);
                }
            },
        }
    }

    /// One gravity tick, drawing the shape of any settlement's spawn
    /// uniformly at random.
    pub fn gravity_tick(&mut self)
        requires
            old(self).wf(),
            old(self).firetris.score + 250 <= usize::MAX,
        ensures
            final(self).wf(),
            exists|t: PieceType| tick_outcome(*old(self), *final(self), t),
    {
        let shape = random_piece_type();
        self.gravity_tick_with_shape(shape);
    }
}

/// Relies on rand::Rng::gen_range over `0..7`: it returns a uniformly drawn
/// value of the (non-empty) range, so an index below 7.
#[verifier::external_body]
fn random_shape_index() -> (idx: u8)
    ensures
        idx < 7,
{
    rand::thread_rng().gen_range(0..7)
}

/// Draws a shape uniformly at random among the seven variants: a uniformly
/// drawn index below 7, sent through the shape-selection table, which
/// `lemma_shape_of_bijective` shows hits each shape exactly once.
fn random_piece_type() -> (t: PieceType)
    ensures
        exists|i: int| 0 <= i < 7 && t == spec_shape_of(i),
{
    shape_of_index(random_shape_index())
}

} // verus!
