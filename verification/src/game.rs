//! The game engine: spawning, gravity, input-driven moves, locking,
//! line-clear scoring, levels and pause/game-over handling.
//!
//! Time is handled as a millisecond counter supplied by the caller; the
//! engine never blocks and only compares the supplied time against its
//! stored gravity deadline.  Random piece choice goes through `rand`;
//! every operation that draws a piece also exists in a `_with` form that
//! takes the incoming kind as an argument, so callers and tests can
//! supply a deterministic sequence.

use vstd::prelude::*;

use rand::Rng;

use crate::board::Board;
use crate::board::GridView;
use crate::board::cells_ints;
use crate::board::cleared;
use crate::board::collides;
use crate::board::empty_grid;
use crate::board::num_full;
use crate::board::place;
use crate::piece::ActivePiece;
use crate::piece::ccw_index;
use crate::piece::cw_index;
use crate::piece::piece_cells;
use crate::piece::rot_count_of;
use crate::piece::spawn_of;
use crate::kind::BlockType;

verus! {

/// The gravity interval for a level, in milliseconds: 700 at level 1,
/// 50 less per further level, never below 60.
pub open spec fn interval_of(level: int) -> int {
    if 700 - 50 * (level - 1) >= 60 {
        700 - 50 * (level - 1)
    } else {
        60
    }
}

/// Addition on the score counters, saturating at the counter's limit.
pub open spec fn sat_add_u64(a: int, b: int) -> int {
    if a + b > u64::MAX {
        u64::MAX as int
    } else {
        a + b
    }
}

/// The base points for clearing this many rows at once; four or more
/// rows score as four.
pub open spec fn line_points(removed: int) -> int {
    if removed == 1 {
        100
    } else if removed == 2 {
        300
    } else if removed == 3 {
        500
    } else {
        800
    }
}

/// The points a lock awards: the level times the base points for the
/// rows cleared, nothing when no row was cleared, saturating at the
/// score counter's limit.
pub open spec fn award_points(level: int, removed: int) -> int {
    if removed == 0 {
        0
    } else if level * line_points(removed) > u64::MAX {
        u64::MAX as int
    } else {
        level * line_points(removed)
    }
}

/// The piece `p`, fallen by `dy` rows.
pub open spec fn fallen(p: ActivePiece, dy: int) -> ActivePiece {
    ActivePiece { y: (p.y + dy) as i32, ..p }
}

/// The piece `p`, shifted by a kick offset.
pub open spec fn shifted(p: ActivePiece, dx: int, dy: int) -> ActivePiece {
    ActivePiece { x: (p.x + dx) as i32, y: (p.y + dy) as i32, ..p }
}

/// The piece `p`, turned one rotation state clockwise.
pub open spec fn rotated_cw(p: ActivePiece) -> ActivePiece {
    ActivePiece {
        rotation: cw_index(p.rotation as int, rot_count_of(p.kind) as int) as usize,
        ..p
    }
}

/// The piece `p`, turned one rotation state counter-clockwise.
pub open spec fn rotated_ccw(p: ActivePiece) -> ActivePiece {
    ActivePiece {
        rotation: ccw_index(p.rotation as int, rot_count_of(p.kind) as int) as usize,
        ..p
    }
}

/// The outcome of a rotation attempt from `p` to the turned piece `pr`:
/// the first of the trial offsets (none, left, right, up) at which the
/// turned piece fits, or `p` unchanged when all four collide.
pub open spec fn kick_result(g: GridView, p: ActivePiece, pr: ActivePiece) -> ActivePiece {
    if !collides(g, pr, 0, 0) {
        pr
    } else if !collides(g, pr, -1, 0) {
        shifted(pr, -1, 0)
    } else if !collides(g, pr, 1, 0) {
        shifted(pr, 1, 0)
    } else if !collides(g, pr, 0, -1) {
        shifted(pr, 0, -1)
    } else {
        p
    }
}

/// The whole game state.
pub struct Game {
    pub board: Board,
    pub current: ActivePiece,
    pub next: BlockType,
    pub score: u64,
    pub level: u64,
    pub lines_cleared: u64,
    pub paused: bool,
    pub game_over: bool,
    pub start_ms: u64,
    pub last_drop_ms: u64,
    pub gravity_interval_ms: u64,
}

/// The grid right after the current piece's cells are written in.
pub open spec fn grid_after_lock(pre: Game) -> GridView {
    place(pre.board.grid(), pre.current.kind, piece_cells(pre.current))
}

/// How many rows that lock completes.
pub open spec fn lock_removed(pre: Game) -> nat {
    num_full(grid_after_lock(pre))
}

/// The grid after the lock's full rows are cleared.
pub open spec fn grid_after_clear(pre: Game) -> GridView {
    cleared(grid_after_lock(pre))
}

/// The score after the lock's line-clear award.
pub open spec fn score_after_lock(pre: Game) -> int {
    sat_add_u64(pre.score as int, award_points(pre.level as int, lock_removed(pre) as int))
}

/// The line total after the lock.
pub open spec fn lines_after_lock(pre: Game) -> int {
    sat_add_u64(pre.lines_cleared as int, lock_removed(pre) as int)
}

/// The level after the lock: one step per ten lines cleared in all.
pub open spec fn level_after_lock(pre: Game) -> int {
    lines_after_lock(pre) / 10 + 1
}

/// Everything one lock does: the piece's cells settle, full rows clear,
/// score, lines, level and gravity update, the stored next kind spawns
/// as the new current piece, and the game ends if that spawn collides.
/// The drawing of the new next kind is the one thing left open.
pub open spec fn lock_post(pre: Game, post: Game, now: int) -> bool {
    &&& post.board.grid() == grid_after_clear(pre)
    &&& post.score == score_after_lock(pre)
    &&& post.lines_cleared == lines_after_lock(pre)
    &&& post.level == level_after_lock(pre)
    &&& post.gravity_interval_ms == interval_of(level_after_lock(pre))
    &&& post.current == spawn_of(pre.next)
    &&& post.game_over == (pre.game_over || collides(
        grid_after_clear(pre),
        spawn_of(pre.next),
        0,
        0,
    ))
    &&& post.paused == pre.paused
    &&& post.start_ms == pre.start_ms
    &&& post.last_drop_ms == now
    &&& post.score >= pre.score
    &&& post.lines_cleared >= pre.lines_cleared
    &&& post.level >= pre.level
    &&& post.wf()
}

/// Relies on rand's thread-local generator and `Rng::gen_range`: a value
/// drawn from `[0, 7)`; nothing is assumed about which.
#[verifier::external_body]
fn random_piece_index() -> (r: u8)
    ensures
        r < 7,
{
    let mut rng = rand::thread_rng();
    rng.gen_range(0..7u8)
}

/// A random piece kind; every kind can come back.
pub fn random_kind() -> (k: BlockType) {
    BlockType::from_index(random_piece_index())
}

/// Saturating addition on the score counters.
fn sat_add(a: u64, b: u64) -> (r: u64)
    ensures
        r as int == sat_add_u64(a as int, b as int),
{
    if a > u64::MAX - b {
        u64::MAX
    } else {
        a + b
    }
}

/// The points awarded for a lock that cleared `removed` rows at `level`.
fn award_for(level: u64, removed: usize) -> (pts: u64)
    requires
        1 <= level,
    ensures
        pts as int == award_points(level as int, removed as int),
{
    if removed == 0 {
        return 0;
    }
    let base: u64 = if removed == 1 {
        100
    } else if removed == 2 {
        300
    } else if removed == 3 {
        500
    } else {
        800
    };
    let cap = u64::MAX / base;
    proof {
        vstd::arithmetic::div_mod::lemma_fundamental_div_mod(u64::MAX as int, base as int);
        vstd::arithmetic::div_mod::lemma_mod_bound(u64::MAX as int, base as int);
    }
    if level <= cap {
        proof {
            assert(level * base <= u64::MAX) by (nonlinear_arith)
                requires
                    0 < base,
                    level as int <= (u64::MAX as int) / (base as int),
                    u64::MAX as int == (base as int) * ((u64::MAX as int) / (base as int)) + (
                    u64::MAX as int) % (base as int),
                    0 <= (u64::MAX as int) % (base as int),
            ;
        }
        level * base
    } else {
        proof {
            assert(level * base > u64::MAX) by (nonlinear_arith)
                requires
                    0 < base,
                    level as int > (u64::MAX as int) / (base as int),
                    0 <= (u64::MAX as int) / (base as int),
                    u64::MAX as int == (base as int) * ((u64::MAX as int) / (base as int)) + (
                    u64::MAX as int) % (base as int),
                    (u64::MAX as int) % (base as int) < base as int,
            ;
        }
        u64::MAX
    }
}

impl Game {
    /// A game state is well formed when its board and piece are, the
    /// level is derived from the lines cleared, and the gravity interval
    /// is derived from the level.
    pub open spec fn wf(&self) -> bool {
        &&& self.board.wf()
        &&& self.current.wf()
        &&& self.level as int == self.lines_cleared as int / 10 + 1
        &&& self.gravity_interval_ms as int == interval_of(self.level as int)
    }

    /// Whether play is running: neither paused nor over.
    pub open spec fn active(&self) -> bool {
        !self.paused && !self.game_over
    }

    /// Whether a gravity drop is owed at time `now`.
    pub open spec fn due(&self, now: int) -> bool {
        now >= self.last_drop_ms && now - self.last_drop_ms >= self.gravity_interval_ms
    }

    /// The gravity interval for a level, in milliseconds.
    pub fn interval_for_level(level: u64) -> (ms: u64)
        requires
            1 <= level,
        ensures
            ms as int == interval_of(level as int),
    {
        if level >= 14 {
            60
        } else {
            700 - (level - 1) * 50
        }
    }

    /// A fresh game with the given first and next kinds, started at the
    /// given time.
    pub fn new_with(current_kind: BlockType, next_kind: BlockType, now_ms: u64) -> (g: Game)
        ensures
            g.wf(),
            g.board.grid() == empty_grid(),
            g.current == spawn_of(current_kind),
            g.next == next_kind,
            g.score == 0,
            g.level == 1,
            g.lines_cleared == 0,
            !g.paused,
            !g.game_over,
            g.start_ms == now_ms,
            g.last_drop_ms == now_ms,
            g.gravity_interval_ms == 700,
    {
        let board = Board::new();
        let current = ActivePiece::new(current_kind);
        let gravity_interval_ms = Game::interval_for_level(1);
        Game {
            board,
            current,
            next: next_kind,
            score: 0,
            level: 1,
            lines_cleared: 0,
            paused: false,
            game_over: false,
            start_ms: now_ms,
            last_drop_ms: now_ms,
            gravity_interval_ms,
        }
    }

    /// A fresh game with randomly drawn current and next kinds.
    pub fn new(now_ms: u64) -> (g: Game)
        ensures
            g.wf(),
            g.board.grid() == empty_grid(),
            g.current == spawn_of(g.current.kind),
            g.score == 0,
            g.level == 1,
            g.lines_cleared == 0,
            !g.paused,
            !g.game_over,
            g.start_ms == now_ms,
            g.last_drop_ms == now_ms,
            g.gravity_interval_ms == 700,
    {
        let next_kind = random_kind();
        let current_kind = random_kind();
        Game::new_with(current_kind, next_kind, now_ms)
    }

    /// Discard the whole state and start over with the given kinds:
    /// empty board, zero score and lines, level one.  Works in any
    /// state, including game over.
    pub fn reset_with(&mut self, current_kind: BlockType, next_kind: BlockType, now_ms: u64)
        ensures
            final(self).wf(),
            final(self).board.grid() == empty_grid(),
            final(self).current == spawn_of(current_kind),
            final(self).next == next_kind,
            final(self).score == 0,
            final(self).level == 1,
            final(self).lines_cleared == 0,
            !final(self).paused,
            !final(self).game_over,
            final(self).start_ms == now_ms,
            final(self).last_drop_ms == now_ms,
            final(self).gravity_interval_ms == 700,
    {
        *self = Game::new_with(current_kind, next_kind, now_ms);
    }

    /// Discard the whole state and start over with fresh random kinds.
    pub fn reset(&mut self, now_ms: u64)
        ensures
            final(self).wf(),
            final(self).board.grid() == empty_grid(),
            final(self).current == spawn_of(final(self).current.kind),
            final(self).score == 0,
            final(self).level == 1,
            final(self).lines_cleared == 0,
            !final(self).paused,
            !final(self).game_over,
            final(self).start_ms == now_ms,
            final(self).last_drop_ms == now_ms,
            final(self).gravity_interval_ms == 700,
    {
        let next_kind = random_kind();
        let current_kind = random_kind();
        self.reset_with(current_kind, next_kind, now_ms);
    }

    /// Flip the paused flag; works in any state and changes nothing
    /// else.
    pub fn toggle_pause(&mut self)
        ensures
            *final(self) == (Game { paused: !old(self).paused, ..*old(self) }),
    {
        self.paused = !self.paused;
    }

    /// How long the game has been running at time `now`.
    pub fn elapsed_ms(&self, now_ms: u64) -> (ms: u64)
        ensures
            ms == if now_ms >= self.start_ms {
                now_ms - self.start_ms
            } else {
                0
            },
    {
        if now_ms >= self.start_ms {
            now_ms - self.start_ms
        } else {
            0
        }
    }

    /// Promote the stored next kind to the current piece, store the
    /// incoming kind as the new next, and end the game if the fresh
    /// spawn already collides.
    pub fn spawn_next_with(&mut self, incoming: BlockType)
        requires
            old(self).wf(),
        ensures
            final(self).wf(),
            final(self).current == spawn_of(old(self).next),
            final(self).next == incoming,
            final(self).game_over == (old(self).game_over || collides(
                old(self).board.grid(),
                spawn_of(old(self).next),
                0,
                0,
            )),
            final(self).board == old(self).board,
            final(self).score == old(self).score,
            final(self).level == old(self).level,
            final(self).lines_cleared == old(self).lines_cleared,
            final(self).paused == old(self).paused,
            final(self).start_ms == old(self).start_ms,
            final(self).last_drop_ms == old(self).last_drop_ms,
            final(self).gravity_interval_ms == old(self).gravity_interval_ms,
    {
        self.current = ActivePiece::new(self.next);
        self.next = incoming;
        if self.board.check_collision(&self.current, 0, 0) {
            self.game_over = true;
        }
    }

    /// As `spawn_next_with`, with a randomly drawn new next kind.
    pub fn spawn_next(&mut self)
        requires
            old(self).wf(),
        ensures
            final(self).wf(),
            final(self).current == spawn_of(old(self).next),
            final(self).game_over == (old(self).game_over || collides(
                old(self).board.grid(),
                spawn_of(old(self).next),
                0,
                0,
            )),
            final(self).board == old(self).board,
            final(self).score == old(self).score,
            final(self).level == old(self).level,
            final(self).lines_cleared == old(self).lines_cleared,
            final(self).paused == old(self).paused,
            final(self).start_ms == old(self).start_ms,
            final(self).last_drop_ms == old(self).last_drop_ms,
            final(self).gravity_interval_ms == old(self).gravity_interval_ms,
    {
        let k = random_kind();
        self.spawn_next_with(k);
    }

    /// Settle the current piece into the board, clear full rows, apply
    /// scoring and levelling, spawn the stored next kind, and store the
    /// incoming kind as the new next.
    pub fn lock_piece_with(&mut self, incoming: BlockType, now_ms: u64)
        requires
            old(self).wf(),
        ensures
            lock_post(*old(self), *final(self), now_ms as int),
            final(self).next == incoming,
    {
        let kind = self.current.kind;
        let cells = self.current.cells();
        proof {
            assert(cells_ints(cells@) =~= piece_cells(old(self).current));
        }
        self.board.lock(kind, &cells);
        let removed = self.board.clear_full_lines();
        if removed > 0 {
            let pts = award_for(self.level, removed);
            self.score = sat_add(self.score, pts);
            self.lines_cleared = sat_add(self.lines_cleared, removed as u64);
            proof {
                assert(self.lines_cleared as int / 10 + 1 <= u64::MAX);
            }
            let new_level = self.lines_cleared / 10 + 1;
            if new_level != self.level {
                self.level = new_level;
                self.gravity_interval_ms = Game::interval_for_level(new_level);
            }
        }
        self.spawn_next_with(incoming);
        self.last_drop_ms = now_ms;
    }

    /// As `lock_piece_with`, with a randomly drawn new next kind.
    pub fn lock_piece(&mut self, now_ms: u64)
        requires
            old(self).wf(),
        ensures
            lock_post(*old(self), *final(self), now_ms as int),
    {
        let k = random_kind();
        self.lock_piece_with(k, now_ms);
    }

    /// Try to shift the piece one cell left; blocked shifts are silently
    /// rejected, and nothing happens while paused or over.
    pub fn move_left(&mut self)
        requires
            old(self).wf(),
        ensures
            final(self).wf(),
            (!old(self).active() || collides(old(self).board.grid(), old(self).current, -1, 0))
                ==> *final(self) == *old(self),
            (old(self).active() && !collides(old(self).board.grid(), old(self).current, -1, 0))
                ==> *final(self) == (Game {
                current: shifted(old(self).current, -1, 0),
                ..*old(self)
            }),
    {
        if self.paused || self.game_over {
            return ;
        }
        if !self.board.check_collision(&self.current, -1, 0) {
            proof {
                crate::board::lemma_committed_bounds(self.board.grid(), self.current, -1, 0);
            }
            self.current.x = self.current.x - 1;
        }
    }

    /// Try to shift the piece one cell right; blocked shifts are
    /// silently rejected, and nothing happens while paused or over.
    pub fn move_right(&mut self)
        requires
            old(self).wf(),
        ensures
            final(self).wf(),
            (!old(self).active() || collides(old(self).board.grid(), old(self).current, 1, 0))
                ==> *final(self) == *old(self),
            (old(self).active() && !collides(old(self).board.grid(), old(self).current, 1, 0))
                ==> *final(self) == (Game {
                current: shifted(old(self).current, 1, 0),
                ..*old(self)
            }),
    {
        if self.paused || self.game_over {
            return ;
        }
        if !self.board.check_collision(&self.current, 1, 0) {
            proof {
                crate::board::lemma_committed_bounds(self.board.grid(), self.current, 1, 0);
            }
            self.current.x = self.current.x + 1;
        }
    }

    /// Soft drop: descend one row and score one point, or, when the
    /// piece cannot descend, lock it at once.  Nothing happens while
    /// paused or over.
    pub fn move_down_with(&mut self, incoming: BlockType, now_ms: u64)
        requires
            old(self).wf(),
        ensures
            final(self).wf(),
            !old(self).active() ==> *final(self) == *old(self),
            (old(self).active() && !collides(old(self).board.grid(), old(self).current, 0, 1))
                ==> ({
                &&& final(self).current == fallen(old(self).current, 1)
                &&& final(self).score as int == sat_add_u64(old(self).score as int, 1)
                &&& final(self).board == old(self).board
                &&& final(self).next == old(self).next
                &&& final(self).level == old(self).level
                &&& final(self).lines_cleared == old(self).lines_cleared
                &&& final(self).paused == old(self).paused
                &&& final(self).game_over == old(self).game_over
                &&& final(self).start_ms == old(self).start_ms
                &&& final(self).last_drop_ms == old(self).last_drop_ms
                &&& final(self).gravity_interval_ms == old(self).gravity_interval_ms
            }),
            (old(self).active() && collides(old(self).board.grid(), old(self).current, 0, 1))
                ==> lock_post(*old(self), *final(self), now_ms as int) && final(self).next
                == incoming,
    {
        if self.paused || self.game_over {
            return ;
        }
        if !self.board.check_collision(&self.current, 0, 1) {
            proof {
                crate::board::lemma_committed_bounds(self.board.grid(), self.current, 0, 1);
            }
            self.current.y = self.current.y + 1;
            self.score = sat_add(self.score, 1);
        } else {
            self.lock_piece_with(incoming, now_ms);
        }
    }

    /// As `move_down_with`, with a randomly drawn new next kind on lock.
    pub fn move_down(&mut self, now_ms: u64)
        requires
            old(self).wf(),
        ensures
            final(self).wf(),
            !old(self).active() ==> *final(self) == *old(self),
            (old(self).active() && !collides(old(self).board.grid(), old(self).current, 0, 1))
                ==> ({
                &&& final(self).current == fallen(old(self).current, 1)
                &&& final(self).score as int == sat_add_u64(old(self).score as int, 1)
                &&& final(self).board == old(self).board
                &&& final(self).next == old(self).next
                &&& final(self).level == old(self).level
                &&& final(self).lines_cleared == old(self).lines_cleared
                &&& final(self).paused == old(self).paused
                &&& final(self).game_over == old(self).game_over
                &&& final(self).start_ms == old(self).start_ms
                &&& final(self).last_drop_ms == old(self).last_drop_ms
                &&& final(self).gravity_interval_ms == old(self).gravity_interval_ms
            }),
            (old(self).active() && collides(old(self).board.grid(), old(self).current, 0, 1))
                ==> lock_post(*old(self), *final(self), now_ms as int),
    {
        let k = random_kind();
        self.move_down_with(k, now_ms);
    }

    /// Hard drop: descend to the lowest position the board allows, then
    /// lock there at once, with no per-row score.  Nothing happens while
    /// paused or over.
    pub fn hard_drop_with(&mut self, incoming: BlockType, now_ms: u64)
        requires
            old(self).wf(),
        ensures
            final(self).wf(),
            !old(self).active() ==> *final(self) == *old(self),
            old(self).active() ==> (exists|dy: int|
                {
                    &&& 0 <= dy
                    &&& (forall|d: int|
                        0 <= d < dy ==> !collides(
                            old(self).board.grid(),
                            fallen(old(self).current, d),
                            0,
                            1,
                        ))
                    &&& collides(old(self).board.grid(), fallen(old(self).current, dy), 0, 1)
                    &&& lock_post(
                        Game { current: fallen(old(self).current, dy), ..*old(self) },
                        *final(self),
                        now_ms as int,
                    )
                    &&& final(self).next == incoming
                }),
    {
        if self.paused || self.game_over {
            return ;
        }
        let ghost pre = *self;
        let ghost mut dropped: int = 0;
        loop
            invariant
                self.wf(),
                self.board == pre.board,
                self.next == pre.next,
                self.score == pre.score,
                self.level == pre.level,
                self.lines_cleared == pre.lines_cleared,
                self.paused == pre.paused,
                self.game_over == pre.game_over,
                self.start_ms == pre.start_ms,
                self.last_drop_ms == pre.last_drop_ms,
                self.gravity_interval_ms == pre.gravity_interval_ms,
                0 <= dropped,
                pre.current.y + dropped == self.current.y as int,
                self.current == fallen(pre.current, dropped),
                forall|d: int|
                    0 <= d < dropped ==> !collides(pre.board.grid(), fallen(pre.current, d), 0, 1),
            ensures
                self.wf(),
                self.board == pre.board,
                self.next == pre.next,
                self.score == pre.score,
                self.level == pre.level,
                self.lines_cleared == pre.lines_cleared,
                self.paused == pre.paused,
                self.game_over == pre.game_over,
                self.start_ms == pre.start_ms,
                self.last_drop_ms == pre.last_drop_ms,
                self.gravity_interval_ms == pre.gravity_interval_ms,
                0 <= dropped,
                pre.current.y + dropped == self.current.y as int,
                self.current == fallen(pre.current, dropped),
                forall|d: int|
                    0 <= d < dropped ==> !collides(pre.board.grid(), fallen(pre.current, d), 0, 1),
                collides(pre.board.grid(), fallen(pre.current, dropped), 0, 1),
            decreases 24 - self.current.y,
        {
            if self.board.check_collision(&self.current, 0, 1) {
                break ;
            }
            proof {
                crate::board::lemma_committed_bounds(self.board.grid(), self.current, 0, 1);
            }
            self.current.y = self.current.y + 1;
            proof {
                dropped = dropped + 1;
            }
        }
        proof {
            assert(*self == (Game { current: fallen(pre.current, dropped), ..pre }));
        }
        self.lock_piece_with(incoming, now_ms);
    }

    /// As `hard_drop_with`, with a randomly drawn new next kind.
    pub fn hard_drop(&mut self, now_ms: u64)
        requires
            old(self).wf(),
        ensures
            final(self).wf(),
            !old(self).active() ==> *final(self) == *old(self),
            old(self).active() ==> (exists|dy: int|
                {
                    &&& 0 <= dy
                    &&& (forall|d: int|
                        0 <= d < dy ==> !collides(
                            old(self).board.grid(),
                            fallen(old(self).current, d),
                            0,
                            1,
                        ))
                    &&& collides(old(self).board.grid(), fallen(old(self).current, dy), 0, 1)
                    &&& lock_post(
                        Game { current: fallen(old(self).current, dy), ..*old(self) },
                        *final(self),
                        now_ms as int,
                    )
                }),
    {
        let k = random_kind();
        self.hard_drop_with(k, now_ms);
    }

    /// Try to turn the piece clockwise, trialling the kick offsets in
    /// order; a rotation no offset can place is silently rejected.
    /// Nothing happens while paused or over.
    pub fn rotate_cw(&mut self)
        requires
            old(self).wf(),
        ensures
            final(self).wf(),
            !old(self).active() ==> *final(self) == *old(self),
            old(self).active() ==> *final(self) == (Game {
                current: kick_result(
                    old(self).board.grid(),
                    old(self).current,
                    rotated_cw(old(self).current),
                ),
                ..*old(self)
            }),
    {
        if self.paused || self.game_over {
            return ;
        }
        let mut test = self.current;
        test.rotate_cw();
        proof {
            assert(test == rotated_cw(old(self).current));
        }
        self.commit_rotation(test);
    }

    /// Try to turn the piece counter-clockwise, trialling the kick
    /// offsets in order; a rotation no offset can place is silently
    /// rejected.  Nothing happens while paused or over.
    pub fn rotate_ccw(&mut self)
        requires
            old(self).wf(),
        ensures
            final(self).wf(),
            !old(self).active() ==> *final(self) == *old(self),
            old(self).active() ==> *final(self) == (Game {
                current: kick_result(
                    old(self).board.grid(),
                    old(self).current,
                    rotated_ccw(old(self).current),
                ),
                ..*old(self)
            }),
    {
        if self.paused || self.game_over {
            return ;
        }
        let mut test = self.current;
        test.rotate_ccw();
        proof {
            assert(test == rotated_ccw(old(self).current));
        }
        self.commit_rotation(test);
    }

    /// Trial the fixed kick offsets for a turned piece and commit the
    /// first fit, or leave the piece as it was.
    fn commit_rotation(&mut self, test: ActivePiece)
        requires
            old(self).wf(),
            test.wf(),
        ensures
            final(self).wf(),
            *final(self) == (Game {
                current: kick_result(old(self).board.grid(), old(self).current, test),
                ..*old(self)
            }),
    {
        let mut test = test;
        if !self.board.check_collision(&test, 0, 0) {
            self.current = test;
        } else if !self.board.check_collision(&test, -1, 0) {
            proof {
                crate::board::lemma_committed_bounds(self.board.grid(), test, -1, 0);
            }
            test.x = test.x - 1;
            self.current = test;
        } else if !self.board.check_collision(&test, 1, 0) {
            proof {
                crate::board::lemma_committed_bounds(self.board.grid(), test, 1, 0);
            }
            test.x = test.x + 1;
            self.current = test;
        } else if !self.board.check_collision(&test, 0, -1) {
            proof {
                crate::board::lemma_kick_up_bound(self.board.grid(), test);
            }
            test.y = test.y - 1;
            self.current = test;
        }
    }

    /// Gravity tick: when the interval has elapsed, descend one row or,
    /// if the piece cannot descend, lock it; always resets the drop
    /// timer when a drop was owed.  Nothing happens while paused or
    /// over, or before the interval has elapsed.
    pub fn step_with(&mut self, incoming: BlockType, now_ms: u64)
        requires
            old(self).wf(),
        ensures
            final(self).wf(),
            !old(self).active() ==> *final(self) == *old(self),
            (old(self).active() && !old(self).due(now_ms as int)) ==> *final(self) == *old(self),
            (old(self).active() && old(self).due(now_ms as int) && !collides(
                old(self).board.grid(),
                old(self).current,
                0,
                1,
            )) ==> *final(self) == (Game {
                current: fallen(old(self).current, 1),
                last_drop_ms: now_ms,
                ..*old(self)
            }),
            (old(self).active() && old(self).due(now_ms as int) && collides(
                old(self).board.grid(),
                old(self).current,
                0,
                1,
            )) ==> lock_post(*old(self), *final(self), now_ms as int) && final(self).next
                == incoming,
    {
        if self.paused || self.game_over {
            return ;
        }
        if now_ms >= self.last_drop_ms && now_ms - self.last_drop_ms >= self.gravity_interval_ms {
            if !self.board.check_collision(&self.current, 0, 1) {
                proof {
                    crate::board::lemma_committed_bounds(self.board.grid(), self.current, 0, 1);
                }
                self.current.y = self.current.y + 1;
                self.last_drop_ms = now_ms;
            } else {
                self.lock_piece_with(incoming, now_ms);
            }
        }
    }

    /// As `step_with`, with a randomly drawn new next kind on lock.
    pub fn step(&mut self, now_ms: u64)
        requires
            old(self).wf(),
        ensures
            final(self).wf(),
            !old(self).active() ==> *final(self) == *old(self),
            (old(self).active() && !old(self).due(now_ms as int)) ==> *final(self) == *old(self),
            (old(self).active() && old(self).due(now_ms as int) && !collides(
                old(self).board.grid(),
                old(self).current,
                0,
                1,
            )) ==> *final(self) == (Game {
                current: fallen(old(self).current, 1),
                last_drop_ms: now_ms,
                ..*old(self)
            }),
            (old(self).active() && old(self).due(now_ms as int) && collides(
                old(self).board.grid(),
                old(self).current,
                0,
                1,
            )) ==> lock_post(*old(self), *final(self), now_ms as int),
    {
        let k = random_kind();
        self.step_with(k, now_ms);
    }
}

/// The character for one decimal digit.
pub open spec fn digit_char(d: int) -> char {
    if d == 0 {
        '0'
    } else if d == 1 {
        '1'
    } else if d == 2 {
        '2'
    } else if d == 3 {
        '3'
    } else if d == 4 {
        '4'
    } else if d == 5 {
        '5'
    } else if d == 6 {
        '6'
    } else if d == 7 {
        '7'
    } else if d == 8 {
        '8'
    } else {
        '9'
    }
}

/// The decimal digits of `n`, most significant first.
pub open spec fn dec_digits(n: int) -> Seq<char>
    decreases n,
{
    if n < 10 {
        seq![digit_char(n)]
    } else {
        dec_digits(n / 10).push(digit_char(n % 10))
    }
}

/// A number padded to at least two digits.
pub open spec fn two_digits(n: int) -> Seq<char> {
    if n < 10 {
        seq!['0', digit_char(n)]
    } else {
        dec_digits(n)
    }
}

/// A duration in whole seconds rendered as minutes and seconds,
/// separated by a colon, each padded to two digits.
pub open spec fn mm_ss(total_secs: int) -> Seq<char> {
    two_digits(total_secs / 60) + seq![':'] + two_digits(total_secs % 60)
}

/// Relies on String::push: appends exactly the one character.
#[verifier::external_body]
fn string_push(s: &mut String, c: char)
    ensures
        final(s)@ == old(s)@.push(c),
{
    s.push(c);
}

/// One decimal digit as a character.
fn digit_for(d: u64) -> (c: char)
    requires
        d < 10,
    ensures
        c == digit_char(d as int),
{
    if d == 0 {
        '0'
    } else if d == 1 {
        '1'
    } else if d == 2 {
        '2'
    } else if d == 3 {
        '3'
    } else if d == 4 {
        '4'
    } else if d == 5 {
        '5'
    } else if d == 6 {
        '6'
    } else if d == 7 {
        '7'
    } else if d == 8 {
        '8'
    } else {
        '9'
    }
}

/// Append the decimal digits of `n`.
fn push_decimal(s: &mut String, n: u64)
    ensures
        final(s)@ == old(s)@ + dec_digits(n as int),
    decreases n,
{
    if n >= 10 {
        push_decimal(s, n / 10);
    }
    let c = digit_for(n % 10);
    string_push(s, c);
    proof {
        if n < 10 {
            assert(n as int % 10 == n as int);
            assert(old(s)@ + dec_digits(n as int) =~= old(s)@.push(digit_char(n as int)));
        } else {
            assert(old(s)@ + dec_digits(n as int) =~= (old(s)@ + dec_digits(n as int / 10)).push(
                digit_char(n as int % 10),
            ));
        }
    }
}

/// A play duration in whole seconds rendered as `minutes:seconds`, each
/// padded to two digits.
pub fn format_duration(total_secs: u64) -> (s: String)
    ensures
        s@ == mm_ss(total_secs as int),
{
    let minutes = total_secs / 60;
    let seconds = total_secs % 60;
    let mut s = String::new();
    if minutes < 10 {
        string_push(&mut s, '0');
    }
    push_decimal(&mut s, minutes);
    string_push(&mut s, ':');
    if seconds < 10 {
        string_push(&mut s, '0');
    }
    push_decimal(&mut s, seconds);
    proof {
        assert(s@ =~= mm_ss(total_secs as int));
    }
    s
}

} // verus!
