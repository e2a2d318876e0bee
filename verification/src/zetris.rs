//! The simulation core: the settled playfield, the falling piece, collision
//! detection, and the two timers that pace gravity against player input.
//!
//! All timing is injected: every mutating operation takes the current reading
//! of a monotonic millisecond clock, so the simulation itself never sleeps,
//! polls, or reads a wall clock. The caller's driving loop owns pacing.
//!
//! The simulation deliberately reproduces a reduced game: there is no piece
//! rotation, no row clearing, no scoring, and no terminal game-over state.
//! When a landing piece still has minos in the vanish zone (rows above the
//! visible playfield), those minos are discarded rather than merged; play
//! simply continues with the next piece.

use crate::zetromino::{
    is_spawn, lemma_spawn_in_vanish, moved_by, spec_spawn_minos, Coord, Kind, MinoColor, Zetromino,
    PLAYFIELD_HCELLS, PLAYFIELD_VCELLS,
};
use vstd::prelude::*;

verus! {

/// Milliseconds that must elapse between two accepted gravity ticks.
pub const GAME_DELAY_MS: u64 = 200;

/// Milliseconds that must elapse between two accepted lateral-move attempts.
pub const INPUT_DELAY_MS: u64 = 100;

/// Number of cells of the playfield, stored row-major.
pub const PLAYFIELD_CELLS: usize = PLAYFIELD_HCELLS * PLAYFIELD_VCELLS;

/// One settled cell of the playfield.
#[derive(Clone, Copy, Debug, PartialEq, Eq, Structural)]
pub struct PlayfieldCell {
    pub occupied: bool,
    pub color: MinoColor,
}

impl PlayfieldCell {
    /// An unoccupied cell of the default grey color.
    pub fn new() -> (c: Self)
        ensures
            c == (PlayfieldCell { occupied: false, color: MinoColor::Grey }),
    {
        Self { occupied: false, color: MinoColor::default() }
    }
}

/// Whether the cell position at column `x`, row `y` collides against the
/// playfield `grid`: a position in the vanish zone (row below zero) never
/// collides; a visible position collides when it leaves the playfield bounds
/// or lands on a settled block.
pub open spec fn coord_collides(grid: Seq<PlayfieldCell>, x: int, y: int) -> bool {
    y >= 0 && (x < 0 || x >= PLAYFIELD_HCELLS as int || y >= PLAYFIELD_VCELLS as int || (0 <= x
        < PLAYFIELD_HCELLS as int && 0 <= y < PLAYFIELD_VCELLS as int && grid[y
        * PLAYFIELD_HCELLS as int + x].occupied))
}

/// Whether the piece `p`, moved rigidly by `dx` columns and `dy` rows,
/// collides against `grid`.
pub open spec fn shifted_collides(grid: Seq<PlayfieldCell>, p: Zetromino, dx: int, dy: int) -> bool {
    exists|i: int|
        0 <= i < 4 && #[trigger] coord_collides(
            grid,
            p.minos@[i].x + dx,
            p.minos@[i].y + dy,
        )
}

/// Whether the piece `p` collides against `grid` where it stands.
pub open spec fn piece_collides(grid: Seq<PlayfieldCell>, p: Zetromino) -> bool {
    shifted_collides(grid, p, 0, 0)
}

/// Whether the `j`-th mino of `p` is a visible in-bounds mino that settles
/// into the row-major cell `idx`.
pub open spec fn mino_at_index(p: Zetromino, j: int, idx: int) -> bool {
    let m = p.minos@[j];
    0 <= m.y < PLAYFIELD_VCELLS as int && 0 <= m.x < PLAYFIELD_HCELLS as int && idx == m.y
        * PLAYFIELD_HCELLS as int + m.x
}

/// Whether one of the first `n` minos of `p` settles into cell `idx`.
pub open spec fn covered_upto(p: Zetromino, idx: int, n: int) -> bool {
    exists|j: int| 0 <= j < n && #[trigger] mino_at_index(p, j, idx)
}

/// The playfield after the first `n` minos of `p` have landed: each cell a
/// visible mino reaches is occupied with the piece's color, every other cell
/// is unchanged. Minos still in the vanish zone leave no mark.
pub open spec fn merged_upto(
    pre: Seq<PlayfieldCell>,
    post: Seq<PlayfieldCell>,
    p: Zetromino,
    n: int,
) -> bool {
    &&& post.len() == pre.len()
    &&& forall|idx: int|
        0 <= idx < pre.len() ==> #[trigger] post[idx] == (if covered_upto(p, idx, n) {
            (PlayfieldCell { occupied: true, color: p.color })
        } else {
            pre[idx]
        })
}

/// The playfield after the whole piece `p` has landed.
pub open spec fn merged(pre: Seq<PlayfieldCell>, post: Seq<PlayfieldCell>, p: Zetromino) -> bool {
    merged_upto(pre, post, p, 4)
}

/// A non-colliding piece keeps every mino above the bottom bound and, once a
/// mino is visible, inside the columns.
pub proof fn lemma_no_collision_bounds(grid: Seq<PlayfieldCell>, p: Zetromino)
    requires
        !piece_collides(grid, p),
    ensures
        forall|i: int| 0 <= i < 4 ==> (#[trigger] p.minos@[i]).y < PLAYFIELD_VCELLS as int,
        forall|i: int|
            0 <= i < 4 && (#[trigger] p.minos@[i]).y >= 0 ==> 0 <= p.minos@[i].x
                < PLAYFIELD_HCELLS as int,
{
    assert forall|i: int| 0 <= i < 4 implies (#[trigger] p.minos@[i]).y < PLAYFIELD_VCELLS as int
        && (p.minos@[i].y >= 0 ==> 0 <= p.minos@[i].x < PLAYFIELD_HCELLS as int) by {
        assert(!coord_collides(grid, p.minos@[i].x + 0, p.minos@[i].y + 0));
    }
}

/// Collision of a rigidly moved piece equals collision of the original piece
/// tested at the same offset.
pub proof fn lemma_moved_collides(
    grid: Seq<PlayfieldCell>,
    p: Zetromino,
    q: Zetromino,
    dx: int,
    dy: int,
)
    requires
        moved_by(p, q, dx, dy),
    ensures
        piece_collides(grid, q) == shifted_collides(grid, p, dx, dy),
{
    if piece_collides(grid, q) {
        let i = choose|i: int|
            0 <= i < 4 && #[trigger] coord_collides(grid, q.minos@[i].x + 0, q.minos@[i].y + 0);
        assert(q.minos@[i].x == p.minos@[i].x + dx);
        assert(coord_collides(grid, p.minos@[i].x + dx, p.minos@[i].y + dy));
    }
    if shifted_collides(grid, p, dx, dy) {
        let i = choose|i: int|
            0 <= i < 4 && #[trigger] coord_collides(grid, p.minos@[i].x + dx, p.minos@[i].y + dy);
        assert(q.minos@[i].x == p.minos@[i].x + dx);
        assert(coord_collides(grid, q.minos@[i].x + 0, q.minos@[i].y + 0));
    }
}

/// A freshly spawned piece never collides, whatever the playfield holds — in
/// particular against an empty one: all of its minos are still in the vanish
/// zone, and vanish-zone minos are excluded from the collision check.
pub proof fn lemma_spawn_never_collides(grid: Seq<PlayfieldCell>, p: Zetromino, kind: Kind)
    requires
        is_spawn(p, kind),
    ensures
        !piece_collides(grid, p),
{
    lemma_spawn_in_vanish(kind);
    assert forall|i: int| 0 <= i < 4 implies !#[trigger] coord_collides(
        grid,
        p.minos@[i].x + 0,
        p.minos@[i].y + 0,
    ) by {
        assert(p.minos@[i] == spec_spawn_minos(kind)[i]);
        assert(p.minos@[i].y < 0);
    }
}

/// Covering by the first `n + 1` minos splits into covering by the first `n`
/// or settling of mino `n` itself.
proof fn lemma_covered_step(p: Zetromino, idx: int, n: int)
    requires
        0 <= n < 4,
    ensures
        covered_upto(p, idx, n + 1) == (covered_upto(p, idx, n) || mino_at_index(p, n, idx)),
{
    if covered_upto(p, idx, n + 1) {
        let j = choose|j: int| 0 <= j < n + 1 && #[trigger] mino_at_index(p, j, idx);
        if j < n {
            assert(covered_upto(p, idx, n));
        }
    }
    if covered_upto(p, idx, n) {
        let j = choose|j: int| 0 <= j < n && #[trigger] mino_at_index(p, j, idx);
        assert(covered_upto(p, idx, n + 1));
    }
    if mino_at_index(p, n, idx) {
        assert(covered_upto(p, idx, n + 1));
    }
}

/// A piece whose minos have all entered the visible rows collides as soon as
/// it has been pushed past either side wall: its least column below zero, or
/// its greatest column beyond the last one. A piece still wholly in the
/// vanish zone is exempt — there it never collides, whatever its columns.
pub proof fn lemma_out_of_columns_collides(grid: Seq<PlayfieldCell>, p: Zetromino)
    requires
        forall|i: int| 0 <= i < 4 ==> (#[trigger] p.minos@[i]).y >= 0,
        p.spec_min_x() < 0 || p.spec_max_x() >= PLAYFIELD_HCELLS as int,
    ensures
        piece_collides(grid, p),
{
    if p.spec_min_x() < 0 {
        if p.minos@[0].x < 0 {
            assert(coord_collides(grid, p.minos@[0].x + 0, p.minos@[0].y + 0));
        } else if p.minos@[1].x < 0 {
            assert(coord_collides(grid, p.minos@[1].x + 0, p.minos@[1].y + 0));
        } else if p.minos@[2].x < 0 {
            assert(coord_collides(grid, p.minos@[2].x + 0, p.minos@[2].y + 0));
        } else {
            assert(coord_collides(grid, p.minos@[3].x + 0, p.minos@[3].y + 0));
        }
    } else {
        if p.minos@[0].x >= PLAYFIELD_HCELLS as int {
            assert(coord_collides(grid, p.minos@[0].x + 0, p.minos@[0].y + 0));
        } else if p.minos@[1].x >= PLAYFIELD_HCELLS as int {
            assert(coord_collides(grid, p.minos@[1].x + 0, p.minos@[1].y + 0));
        } else if p.minos@[2].x >= PLAYFIELD_HCELLS as int {
            assert(coord_collides(grid, p.minos@[2].x + 0, p.minos@[2].y + 0));
        } else {
            assert(coord_collides(grid, p.minos@[3].x + 0, p.minos@[3].y + 0));
        }
    }
}

/// A piece translated down far enough that its greatest row has reached the
/// playfield height collides.
pub proof fn lemma_below_floor_collides(grid: Seq<PlayfieldCell>, p: Zetromino)
    requires
        p.spec_max_y() >= PLAYFIELD_VCELLS as int,
    ensures
        piece_collides(grid, p),
{
    if p.minos@[0].y >= PLAYFIELD_VCELLS as int {
        assert(coord_collides(grid, p.minos@[0].x + 0, p.minos@[0].y + 0));
    } else if p.minos@[1].y >= PLAYFIELD_VCELLS as int {
        assert(coord_collides(grid, p.minos@[1].x + 0, p.minos@[1].y + 0));
    } else if p.minos@[2].y >= PLAYFIELD_VCELLS as int {
        assert(coord_collides(grid, p.minos@[2].x + 0, p.minos@[2].y + 0));
    } else {
        assert(coord_collides(grid, p.minos@[3].x + 0, p.minos@[3].y + 0));
    }
}

/// When the top visible row is entirely occupied, a piece that has descended
/// onto that row (some mino at row zero) collides.
pub proof fn lemma_occupied_row_collides(grid: Seq<PlayfieldCell>, p: Zetromino)
    requires
        grid.len() == PLAYFIELD_CELLS as int,
        forall|c: int| 0 <= c < PLAYFIELD_HCELLS as int ==> (#[trigger] grid[c]).occupied,
        exists|i: int| 0 <= i < 4 && (#[trigger] p.minos@[i]).y == 0,
    ensures
        piece_collides(grid, p),
{
    let i = choose|i: int| 0 <= i < 4 && (#[trigger] p.minos@[i]).y == 0;
    let m = p.minos@[i];
    if 0 <= m.x < PLAYFIELD_HCELLS as int {
        assert(grid[m.x as int].occupied);
    }
    assert(coord_collides(grid, p.minos@[i].x + 0, p.minos@[i].y + 0));
}

/// Two lateral-move attempts in the same direction, made less than the input
/// interval apart, apply at most one net translation: the second attempt is
/// gated whenever the first consumed the tick.
pub proof fn lemma_throttled_laterals_apply_once(
    s0: Zetris,
    s1: Zetris,
    s2: Zetris,
    t1: u64,
    t2: u64,
    dx: int,
)
    requires
        lateral_post(s0, s1, t1, dx),
        lateral_post(s1, s2, t2, dx),
        (t2 as int) < (t1 as int) + (INPUT_DELAY_MS as int),
    ensures
        s2.current == s0.current || moved_by(s0.current, s2.current, dx, 0),
{
    if s0.input_tick_due(t1) {
        assert(s1.input_t0 == t1);
        assert(!s1.input_tick_due(t2));
        assert(s2 == s1);
    } else {
        assert(s1 == s0);
    }
}

/// The simulation state: the settled playfield, the falling piece, and the
/// two timer readings.
pub struct Zetris {
    /// Settled cells, row-major: row `r`, column `c` at `r * PLAYFIELD_HCELLS + c`.
    pub playfield: Vec<PlayfieldCell>,
    /// The currently falling piece.
    pub current: Zetromino,
    /// Clock reading of the last accepted gravity tick, in milliseconds.
    pub t0: u64,
    /// Clock reading of the last accepted lateral-move attempt, in milliseconds.
    pub input_t0: u64,
}

/// A driving loop around the simulation: it polls input, advances the
/// simulation, and renders its state.
pub trait TetrisView {
    fn run(&mut self);
}

/// The three directions a falling piece can be asked to move.
enum Direction {
    Left,
    Right,
    Down,
}

/// Column offset of one move in direction `d`.
spec fn dir_dx(d: Direction) -> int {
    match d {
        Direction::Left => -1,
        Direction::Right => 1,
        Direction::Down => 0,
    }
}

/// Row offset of one move in direction `d`.
spec fn dir_dy(d: Direction) -> int {
    match d {
        Direction::Left => 0,
        Direction::Right => 0,
        Direction::Down => 1,
    }
}

/// Relates the state before one `update` call at clock reading `now_ms` to
/// the state after it: a no-op before the gravity interval has elapsed; one
/// row of descent while the piece can fall; otherwise the landing — visible
/// minos settle, vanish-zone minos are discarded, and a new piece of some
/// kind spawns.
pub open spec fn update_post(pre: Zetris, post: Zetris, now_ms: u64) -> bool {
    if !pre.game_tick_due(now_ms) {
        post == pre
    } else {
        &&& post.t0 == now_ms
        &&& post.input_t0 == pre.input_t0
        &&& if !shifted_collides(pre.playfield@, pre.current, 0, 1) {
            post.playfield@ == pre.playfield@ && moved_by(pre.current, post.current, 0, 1)
        } else {
            merged(pre.playfield@, post.playfield@, pre.current) && (exists|k: Kind|
                is_spawn(post.current, k))
        }
    }
}

/// Relates the state before one lateral-move attempt at clock reading
/// `now_ms` to the state after it; `dx` is −1 for a move to the left and +1
/// for a move to the right. A gated attempt is dropped whole; an accepted
/// attempt consumes the tick whether or not the move itself is applied.
pub open spec fn lateral_post(pre: Zetris, post: Zetris, now_ms: u64, dx: int) -> bool {
    if !pre.input_tick_due(now_ms) {
        post == pre
    } else {
        &&& post.playfield@ == pre.playfield@
        &&& post.t0 == pre.t0
        &&& post.input_t0 == now_ms
        &&& if !shifted_collides(pre.playfield@, pre.current, dx, 0) {
            moved_by(pre.current, post.current, dx, 0)
        } else {
            post.current == pre.current
        }
    }
}

impl Zetris {
    /// The playfield holds exactly one cell per position.
    pub open spec fn wf_playfield(self) -> bool {
        self.playfield@.len() == PLAYFIELD_CELLS as int
    }

    /// Well-formed state: the playfield has its fixed size and the falling
    /// piece stands in a non-colliding position. Every operation checks a
    /// position before committing it, so this holds throughout a piece's life.
    pub open spec fn wf(self) -> bool {
        &&& self.wf_playfield()
        &&& !piece_collides(self.playfield@, self.current)
    }

    /// A gravity tick is due when at least the gravity interval has elapsed
    /// since the last accepted tick.
    pub open spec fn game_tick_due(self, now_ms: u64) -> bool {
        now_ms >= self.t0 + GAME_DELAY_MS
    }

    /// A lateral move is due when at least the input interval has elapsed
    /// since the last accepted attempt.
    pub open spec fn input_tick_due(self, now_ms: u64) -> bool {
        now_ms >= self.input_t0 + INPUT_DELAY_MS
    }

    fn time_for_next_game_tick(&self, now_ms: u64) -> (r: bool)
        ensures
            r == self.game_tick_due(now_ms),
    {
        now_ms >= self.t0 && now_ms - self.t0 >= GAME_DELAY_MS
    }

    fn time_for_next_input_tick(&self, now_ms: u64) -> (r: bool)
        ensures
            r == self.input_tick_due(now_ms),
    {
        now_ms >= self.input_t0 && now_ms - self.input_t0 >= INPUT_DELAY_MS
    }

    fn mino_collides_at(&self, m: Coord) -> (r: bool)
        requires
            self.wf_playfield(),
        ensures
            r == coord_collides(self.playfield@, m.x as int, m.y as int),
    {
        if m.y < 0 {
            false
        } else if m.x < 0 || m.x >= PLAYFIELD_HCELLS as i8 || m.y >= PLAYFIELD_VCELLS as i8 {
            true
        } else {
            let idx: usize = (m.y as usize) * PLAYFIELD_HCELLS + (m.x as usize);
            self.playfield[idx].occupied
        }
    }

    /// Starts a simulation: an empty playfield, one randomly drawn piece at
    /// its spawn position, and both timers anchored at the given clock
    /// reading.
    pub fn new(now_ms: u64) -> (z: Zetris)
        ensures
            z.wf(),
            forall|idx: int|
                0 <= idx < PLAYFIELD_CELLS as int ==> #[trigger] z.playfield@[idx]
                    == (PlayfieldCell { occupied: false, color: MinoColor::Grey }),
            exists|k: Kind| is_spawn(z.current, k),
            z.t0 == now_ms,
            z.input_t0 == now_ms,
    {
        let mut playfield: Vec<PlayfieldCell> = Vec::new();
        let mut i: usize = 0;
        while i < PLAYFIELD_CELLS
            invariant
                i <= PLAYFIELD_CELLS,
                playfield@.len() == i as int,
                forall|idx: int|
                    0 <= idx < i as int ==> #[trigger] playfield@[idx]
                        == (PlayfieldCell { occupied: false, color: MinoColor::Grey }),
            decreases PLAYFIELD_CELLS - i,
        {
            playfield.push(PlayfieldCell::new());
            i = i + 1;
        }
        let current = Zetromino::random_zetromino();
        let z = Zetris { playfield, current, t0: now_ms, input_t0: now_ms };
        proof {
            let k = choose|k: Kind| is_spawn(z.current, k);
            lemma_spawn_never_collides(z.playfield@, z.current, k);
        }
        z
    }

    /// One gravity-gated step: while less than the gravity interval has
    /// elapsed it is a no-op. Otherwise the tick is consumed; the piece falls one row if
    /// that position is free, else it lands — its visible minos settle into
    /// the playfield with its color and a new random piece spawns.
    pub fn update(&mut self, now_ms: u64)
        requires
            old(self).wf(),
        ensures
            final(self).wf(),
            update_post(*old(self), *final(self), now_ms),
    {
        if !self.time_for_next_game_tick(now_ms) {
            return;
        }
        self.t0 = now_ms;
        if self.zetromino_can_move(Direction::Down) {
            proof {
                lemma_no_collision_bounds(self.playfield@, self.current);
            }
            let ghost pre = self.current;
            self.current.down();
            proof {
                lemma_moved_collides(self.playfield@, pre, self.current, 0, 1);
            }
        } else {
            let ghost pre_grid = self.playfield@;
            let ghost piece = self.current;
            proof {
                lemma_no_collision_bounds(pre_grid, piece);
            }
            let color = self.current.color;
            let mut i: usize = 0;
            while i < 4
                invariant
                    i <= 4,
                    self.wf_playfield(),
                    self.playfield@.len() == pre_grid.len(),
                    self.current == piece,
                    self.t0 == now_ms,
                    self.input_t0 == old(self).input_t0,
                    color == piece.color,
                    merged_upto(pre_grid, self.playfield@, piece, i as int),
                    forall|j: int|
                        0 <= j < 4 ==> (#[trigger] piece.minos@[j]).y < PLAYFIELD_VCELLS as int,
                    forall|j: int|
                        0 <= j < 4 && (#[trigger] piece.minos@[j]).y >= 0 ==> 0 <= piece.minos@[j].x
                            < PLAYFIELD_HCELLS as int,
                decreases 4 - i,
            {
                let m = self.current.minos[i];
                let ghost mid = self.playfield@;
                if m.y >= 0 {
                    let idx: usize = (m.y as usize) * PLAYFIELD_HCELLS + (m.x as usize);
                    self.playfield.set(idx, PlayfieldCell { occupied: true, color });
                    proof {
                        assert(mino_at_index(piece, i as int, idx as int));
                        assert forall|q: int| 0 <= q < pre_grid.len() implies #[trigger] self
                            .playfield@[q] == (if covered_upto(piece, q, i as int + 1) {
                            (PlayfieldCell { occupied: true, color: piece.color })
                        } else {
                            pre_grid[q]
                        }) by {
                            lemma_covered_step(piece, q, i as int);
                        }
                    }
                } else {
                    proof {
                        assert forall|q: int| 0 <= q < pre_grid.len() implies #[trigger] self
                            .playfield@[q] == (if covered_upto(piece, q, i as int + 1) {
                            (PlayfieldCell { occupied: true, color: piece.color })
                        } else {
                            pre_grid[q]
                        }) by {
                            lemma_covered_step(piece, q, i as int);
                            assert(!mino_at_index(piece, i as int, q));
                        }
                    }
                }
                i = i + 1;
            }
            self.current = Zetromino::random_zetromino();
            proof {
                let k = choose|k: Kind| is_spawn(self.current, k);
                lemma_spawn_never_collides(self.playfield@, self.current, k);
            }
        }
    }

    /// One throttle-gated attempt to move the piece one column to the left:
    /// while less than the input interval has elapsed the attempt is dropped.
    /// Otherwise the attempt consumes the tick, and the piece moves unless
    /// the moved position would collide.
    pub fn move_left(&mut self, now_ms: u64)
        requires
            old(self).wf(),
            forall|i: int| 0 <= i < 4 ==> (#[trigger] old(self).current.minos@[i]).x > i8::MIN,
        ensures
            final(self).wf(),
            lateral_post(*old(self), *final(self), now_ms, -1),
    {
        if self.time_for_next_input_tick(now_ms) {
            self.input_t0 = now_ms;
            if self.zetromino_can_move(Direction::Left) {
                let ghost pre = self.current;
                self.current.left();
                proof {
                    lemma_moved_collides(self.playfield@, pre, self.current, -1, 0);
                }
            }
        }
    }

    /// One throttle-gated attempt to move the piece one column to the right;
    /// the mirror of `move_left`.
    pub fn move_right(&mut self, now_ms: u64)
        requires
            old(self).wf(),
            forall|i: int| 0 <= i < 4 ==> (#[trigger] old(self).current.minos@[i]).x < i8::MAX,
        ensures
            final(self).wf(),
            lateral_post(*old(self), *final(self), now_ms, 1),
    {
        if self.time_for_next_input_tick(now_ms) {
            self.input_t0 = now_ms;
            if self.zetromino_can_move(Direction::Right) {
                let ghost pre = self.current;
                self.current.right();
                proof {
                    lemma_moved_collides(self.playfield@, pre, self.current, 1, 0);
                }
            }
        }
    }

    /// Whether the falling piece can move one step in the given direction
    /// without leaving the playfield or overlapping a settled block.
    fn zetromino_can_move(&self, direction: Direction) -> (r: bool)
        requires
            self.wf(),
            direction is Left ==> forall|i: int|
                0 <= i < 4 ==> (#[trigger] self.current.minos@[i]).x > i8::MIN,
            direction is Right ==> forall|i: int|
                0 <= i < 4 ==> (#[trigger] self.current.minos@[i]).x < i8::MAX,
        ensures
            r == !shifted_collides(
                self.playfield@,
                self.current,
                dir_dx(direction),
                dir_dy(direction),
            ),
    {
        proof {
            lemma_no_collision_bounds(self.playfield@, self.current);
        }
        let mut dummy = self.current.clone();
        let ghost dx = dir_dx(direction);
        let ghost dy = dir_dy(direction);
        match direction {
            Direction::Left => dummy.left(),
            Direction::Right => dummy.right(),
            Direction::Down => dummy.down(),
        }
        proof {
            lemma_moved_collides(self.playfield@, self.current, dummy, dx, dy);
        }
        !self.check_collisions(&dummy)
    }

    /// Collision test of a piece against the playfield bounds and the settled
    /// blocks; minos in the vanish zone never collide.
    pub fn check_collisions(&self, zetromino: &Zetromino) -> (r: bool)
        requires
            self.wf_playfield(),
        ensures
            r == piece_collides(self.playfield@, *zetromino),
    {
        let c0 = self.mino_collides_at(zetromino.minos[0]);
        let c1 = self.mino_collides_at(zetromino.minos[1]);
        let c2 = self.mino_collides_at(zetromino.minos[2]);
        let c3 = self.mino_collides_at(zetromino.minos[3]);
        let r = c0 || c1 || c2 || c3;
        proof {
            let g = self.playfield@;
            let p = *zetromino;
            if r {
                if c0 {
                    assert(coord_collides(g, p.minos@[0].x + 0, p.minos@[0].y + 0));
                } else if c1 {
                    assert(coord_collides(g, p.minos@[1].x + 0, p.minos@[1].y + 0));
                } else if c2 {
                    assert(coord_collides(g, p.minos@[2].x + 0, p.minos@[2].y + 0));
                } else {
                    assert(coord_collides(g, p.minos@[3].x + 0, p.minos@[3].y + 0));
                }
                assert(piece_collides(g, p));
            } else {
                assert forall|i: int| 0 <= i < 4 implies !#[trigger] coord_collides(
                    g,
                    p.minos@[i].x + 0,
                    p.minos@[i].y + 0,
                ) by {
                    assert(i == 0 || i == 1 || i == 2 || i == 3);
                }
            }
        }
        r
    }
}

} // verus!
