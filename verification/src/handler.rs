//! The single consumer's logic: how each command mutates the game state,
//! and the state machine that dispatches commands while playing or paused.
//! Drawing and sleeping stay with the caller; every operation reports what
//! happened so the caller can redraw.

use vstd::prelude::*;
use vstd::string::StringExecFns;

use crate::block::{block_color, rot_step, FallingBlock, Point, StackedBlock, BLOCK_COUNT, ORIENTATION_COUNT, OFFSET_LIMIT, POINT_OF_BLOCK_COUNT};
use crate::event::Event;
use crate::state::{Record, State, TwoBlocks};
use crate::timer::TimeKeeper;

verus! {

/// Relies on rand::random for picking the next piece; nothing is promised
/// of the drawn value, so every caller must handle every outcome.
pub assume_specification<T>[ rand::random::<T> ]() -> (r: T)
    where
        rand::distributions::Standard: rand::distributions::Distribution<T>,
;

/// What one command did, so the caller knows what to redraw.
#[derive(Debug)]
pub enum Outcome {
    Ignored,
    Quitting,
    Paused,
    Resumed,
    Moved { changed: bool },
    Dropped { landed: bool, lines: Vec<usize>, overflow: bool },
    ResizeRequested,
}

/// The triangular number 1 + 2 + ... + n.
pub open spec fn triangle(n: nat) -> nat
    decreases n,
{
    if n == 0 {
        0
    } else {
        n + triangle((n - 1) as nat)
    }
}

/// Twice a triangular number, with no division involved.
proof fn lemma_triangle_double(n: nat)
    ensures
        2 * (triangle(n) as int) == (n as int) * (n as int + 1),
    decreases n,
{
    if n > 0 {
        lemma_triangle_double((n - 1) as nat);
        assert(triangle(n) == n + triangle((n - 1) as nat));
        assert(2 * (n + triangle((n - 1) as nat) as int) == (n as int) * (n as int + 1))
            by (nonlinear_arith)
            requires
                2 * (triangle((n - 1) as nat) as int) == (n as int - 1) * (n as int),
                n >= 1,
        ;
    } else {
        assert(triangle(0) == 0);
        assert((n as int) * (n as int + 1) == 0) by (nonlinear_arith)
            requires
                n as int == 0,
        ;
    }
}

/// The triangular numbers in closed form.
pub proof fn lemma_triangle_closed_form(n: nat)
    ensures
        triangle(n) == (n as int) * (n as int + 1) / 2,
{
    lemma_triangle_double(n);
    assert(2 * (triangle(n) as int) / 2 == triangle(n) as int);
}

/// The triangular numbers grow monotonically.
pub proof fn lemma_triangle_monotonic(a: nat, b: nat)
    requires
        a <= b,
    ensures
        triangle(a) <= triangle(b),
    decreases b,
{
    if a < b {
        lemma_triangle_monotonic(a, (b - 1) as nat);
    }
}

/// The score for clearing `line` rows at once: 1 point for the first row,
/// 2 more for the second, and so on.
pub fn line_to_score(line: u32) -> (r: u32)
    requires
        line * (line + 1) / 2 <= u32::MAX,
    ensures
        r == triangle(line as nat),
        r == line * (line + 1) / 2,
{
    proof {
        lemma_triangle_closed_form(line as nat);
    }
    let mut sum: u32 = 0;
    let mut i: u32 = 0;
    while i < line
        invariant
            i <= line,
            sum == triangle(i as nat),
            triangle(line as nat) <= u32::MAX,
        decreases line - i,
    {
        proof {
            lemma_triangle_monotonic((i + 1) as nat, line as nat);
        }
        i = i + 1;
        sum = sum + i;
    }
    proof {
        lemma_triangle_closed_form(line as nat);
    }
    sum
}

/// Whether the cells `ps` lie inside the side and bottom walls of a board
/// `col` cells wide and do not overlap `board`; cells above the visible
/// top edge are legal.
pub open spec fn spec_points_free(ps: Seq<Point>, board: StackedBlock, col: int) -> bool {
    &&& forall|k: int| 0 <= k < ps.len() ==> 0 <= (#[trigger] ps[k]).x < col && 0 <= ps[k].y
    &&& !board.spec_overlapped(ps)
}

/// `spec_points_free` against a session's own board.
pub open spec fn spec_valid_position(ps: Seq<Point>, state: State) -> bool {
    spec_points_free(ps, state.stacked_blocks, state.spec_col())
}

/// A legally placed piece sits within a small margin of the board: each
/// catalog cell code is at most 33, so the translation is pinned down.
pub proof fn lemma_valid_offset_bounds(fb: FallingBlock, state: State)
    requires
        fb.wf(),
        state.wf(),
        spec_valid_position(fb.spec_points(), state),
    ensures
        -3 <= fb.offset.x < state.spec_col(),
        -3 <= fb.offset.y,
{
    let codes = crate::block::block_codes(fb.block_idx as int, fb.orientation as int);
    assert(0 <= codes[0] <= 33);
    assert(fb.spec_points()[0] == (Point {
        x: (codes[0] / 10 + fb.offset.x) as isize,
        y: (codes[0] % 10 + fb.offset.y) as isize,
    }));
    assert(0 <= fb.spec_points()[0].x < state.spec_col());
    assert(0 <= fb.spec_points()[0].y);
}

/// Whether `points` is a legal placement on `state`'s board.
pub fn is_valid_position(points: &Vec<Point>, state: &State) -> (r: bool)
    requires
        state.wf(),
    ensures
        r == spec_valid_position(points@, *state),
{
    let (col, _row) = state.get_size();
    let n = points.len();
    let mut i: usize = 0;
    while i < n
        invariant
            state.wf(),
            col == state.spec_col(),
            n == points@.len(),
            i <= n,
            forall|k: int|
                0 <= k < i ==> 0 <= (#[trigger] points@[k]).x < col && 0 <= points@[k].y,
        decreases n - i,
    {
        let p = points[i];
        if !(0 <= p.x && p.x < col as isize && 0 <= p.y) {
            return false;
        }
        i = i + 1;
    }
    !state.stacked_blocks.is_overlapped(points)
}

/// Raise the quit flag; everything else is untouched.
pub fn quit(state: &mut State)
    ensures
        *final(state) == (State { quit_signal: true, ..*old(state) }),
{
    state.quit_signal = true;
}

/// Store a fresh elapsed-seconds reading in the record.
pub fn time_update(secs: u32, state: &mut State)
    ensures
        *final(state) == (State {
            record: Record { secs, ..old(state).record },
            ..*old(state)
        }),
{
    state.record.secs = secs;
}

/// Add cleared lines and their score to the record.
pub fn score_update(line: u32, score: u32, state: &mut State)
    requires
        old(state).record.line + line <= u32::MAX,
        old(state).record.score + score <= u32::MAX,
    ensures
        *final(state) == (State {
            record: Record {
                line: (old(state).record.line + line) as u32,
                score: (old(state).record.score + score) as u32,
                ..old(state).record
            },
            ..*old(state)
        }),
{
    state.record.line = state.record.line + line;
    state.record.score = state.record.score + score;
}

/// `fb` translated by (`dx`, `dy`).
pub open spec fn shifted_piece(fb: FallingBlock, dx: int, dy: int) -> FallingBlock {
    FallingBlock {
        offset: Point { x: (fb.offset.x + dx) as isize, y: (fb.offset.y + dy) as isize },
        ..fb
    }
}

/// A unit move for the falling piece: left, right, or one row down.
pub open spec fn is_unit_move(to: Point) -> bool {
    (to.x == -1 && to.y == 0) || (to.x == 1 && to.y == 0) || (to.x == 0 && to.y == -1)
}

/// What a move attempt does: the falling piece shifts by `to` exactly when
/// the shifted cells are a legal placement; an illegal move changes nothing.
pub open spec fn translate_post(pre: State, post: State, to: Point, moved: bool) -> bool {
    let fb2 = shifted_piece(pre.two_blocks.spec_curr(), to.x as int, to.y as int);
    &&& moved == spec_valid_position(fb2.spec_points(), pre)
    &&& if moved {
        post == (State {
            two_blocks: TwoBlocks { curr: fb2, ..pre.two_blocks },
            ..pre
        })
    } else {
        post == pre
    }
}

/// Try to move the falling piece by the unit move `to`.
pub fn translate(to: &Point, state: &mut State) -> (moved: bool)
    requires
        old(state).wf(),
        is_unit_move(*to),
    ensures
        final(state).wf(),
        translate_post(*old(state), *final(state), *to, moved),
{
    let mut fb = *state.two_blocks.current_block();
    fb.shift(to);
    let pts = fb.points();
    if is_valid_position(&pts, state) {
        let c = state.two_blocks.current_block_mut();
        *c = fb;
        proof {
            lemma_valid_offset_bounds(fb, *old(state));
        }
        true
    } else {
        false
    }
}

/// Try to move the falling piece one column left.
pub fn left(state: &mut State) -> (moved: bool)
    requires
        old(state).wf(),
    ensures
        final(state).wf(),
        translate_post(*old(state), *final(state), Point { x: -1isize, y: 0isize }, moved),
{
    translate(&Point::new(-1, 0), state)
}

/// Try to move the falling piece one column right.
pub fn right(state: &mut State) -> (moved: bool)
    requires
        old(state).wf(),
    ensures
        final(state).wf(),
        translate_post(*old(state), *final(state), Point { x: 1isize, y: 0isize }, moved),
{
    translate(&Point::new(1, 0), state)
}

/// What a rotation attempt does: the rotation state advances by one step
/// exactly when the rotated cells are a legal placement.
pub open spec fn rotate_post(pre: State, post: State, direction: int, turned: bool) -> bool {
    let fb2 = FallingBlock {
        orientation: rot_step(pre.two_blocks.spec_curr().orientation as int, direction) as usize,
        ..pre.two_blocks.spec_curr()
    };
    &&& turned == spec_valid_position(fb2.spec_points(), pre)
    &&& if turned {
        post == (State {
            two_blocks: TwoBlocks { curr: fb2, ..pre.two_blocks },
            ..pre
        })
    } else {
        post == pre
    }
}

/// Try to turn the falling piece one rotation step.
pub fn rotate(direction: isize, state: &mut State) -> (turned: bool)
    requires
        old(state).wf(),
        direction == 1 || direction == -1,
    ensures
        final(state).wf(),
        rotate_post(*old(state), *final(state), direction as int, turned),
{
    let mut fb = *state.two_blocks.current_block();
    fb.rotate(direction);
    let pts = fb.points();
    if is_valid_position(&pts, state) {
        let c = state.two_blocks.current_block_mut();
        *c = fb;
        true
    } else {
        false
    }
}

/// Try to turn the falling piece clockwise.
pub fn clock_rotate(state: &mut State) -> (turned: bool)
    requires
        old(state).wf(),
    ensures
        final(state).wf(),
        rotate_post(*old(state), *final(state), 1, turned),
{
    rotate(1, state)
}

/// Try to turn the falling piece counter-clockwise.
pub fn inverse_rotate(state: &mut State) -> (turned: bool)
    requires
        old(state).wf(),
    ensures
        final(state).wf(),
        rotate_post(*old(state), *final(state), -1, turned),
{
    rotate(-1, state)
}

/// Where a fresh piece spawns: horizontally centered, lowest cells at the
/// top row.
pub open spec fn spawn_origin(state: State) -> Point {
    Point {
        x: ((state.spec_col() - 4) / 2) as isize,
        y: (state.spec_row() - 1) as isize,
    }
}

/// The preview piece translated to the spawn origin.
pub open spec fn spawned_piece(state: State) -> FallingBlock {
    shifted_piece(
        state.two_blocks.spec_next(),
        spawn_origin(state).x as int,
        spawn_origin(state).y as int,
    )
}

/// The message stored when a spawned piece overlaps the stack.
pub open spec fn overflow_message(m: Option<String>) -> bool {
    m matches Some(s) && s@ == "block stack overflow"@
}

/// What spawning does: the preview piece, translated to the spawn origin,
/// becomes the falling piece, and a fresh catalog piece becomes the
/// preview; if the spawned piece is not a legal placement the session ends
/// with a stored message.
pub open spec fn spawn_post(pre: State, post: State, overflow: bool) -> bool {
    &&& overflow == !spec_valid_position(spawned_piece(pre).spec_points(), pre)
    &&& post.two_blocks.spec_curr() == spawned_piece(pre)
    &&& post.two_blocks.spec_next().wf()
    &&& post.two_blocks.spec_next().offset == (Point { x: 0isize, y: 0isize })
    &&& post.stacked_blocks == pre.stacked_blocks
    &&& post.record == pre.record
    &&& post.timer == pre.timer
    &&& post.size == pre.size
    &&& post.handle_signal == pre.handle_signal
    &&& post.quit_signal == (pre.quit_signal || overflow)
    &&& if overflow {
        overflow_message(post.message)
    } else {
        post.message == pre.message
    }
}

/// Promote the preview piece to the spawn origin and draw a random new
/// preview piece; on overflow the session ends.
pub fn generate_new_block(state: &mut State) -> (overflow: bool)
    requires
        old(state).wf(),
    ensures
        final(state).wf(),
        spawn_post(*old(state), *final(state), overflow),
{
    let x = rand::random::<usize>() % (BLOCK_COUNT * ORIENTATION_COUNT);
    let nb = FallingBlock::new(x / ORIENTATION_COUNT, x % ORIENTATION_COUNT);
    let _retired = state.two_blocks.push(nb);
    let (col, row) = state.get_size();
    let origin = Point::new(((col - POINT_OF_BLOCK_COUNT) / 2) as isize, row as isize - 1);
    let c = state.two_blocks.current_block_mut();
    c.shift(&origin);
    let pts = state.two_blocks.current_block().points();
    let valid = is_valid_position(&pts, state);
    if !valid {
        state.message = Some(String::from_str("block stack overflow"));
        state.quit_signal = true;
    }
    !valid
}

/// After a drop the auto-drop schedule restarts from `now`: slot 1 is
/// re-referenced, slot 0 and the pause state are untouched.
pub open spec fn resync_post(pre: TimeKeeper<2>, post: TimeKeeper<2>, now: u64) -> bool {
    &&& post.wf()
    &&& post.pause == pre.pause
    &&& post.pause_time == pre.pause_time
    &&& post.spec_time(0) == pre.spec_time(0)
    &&& post.spec_time(1) == now
}

/// What locking a blocked piece in does: its cells merge into the grid,
/// the preview piece spawns as the new falling piece, and the full rows
/// are reported. With no full rows the auto-drop schedule restarts; with
/// full rows the clock pauses and input is disabled until the caller
/// finishes the clear.
pub open spec fn land_post(
    pre: State,
    post: State,
    lines: Seq<usize>,
    overflow: bool,
    now: u64,
) -> bool {
    let fb = pre.two_blocks.spec_curr();
    &&& StackedBlock::cover_rel(
        pre.stacked_blocks,
        post.stacked_blocks,
        block_color(fb.block_idx as int),
        fb.spec_points(),
    )
    &&& post.stacked_blocks.is_full_lines(lines)
    &&& post.two_blocks.spec_curr() == spawned_piece(pre)
    &&& post.two_blocks.spec_next().wf()
    &&& post.two_blocks.spec_next().offset == (Point { x: 0isize, y: 0isize })
    &&& overflow == !spec_points_free(
        spawned_piece(pre).spec_points(),
        post.stacked_blocks,
        pre.spec_col(),
    )
    &&& post.record == pre.record
    &&& post.size == pre.size
    &&& post.quit_signal == (pre.quit_signal || overflow)
    &&& if overflow {
        overflow_message(post.message)
    } else {
        post.message == pre.message
    }
    &&& if lines.len() == 0 {
        &&& resync_post(pre.timer, post.timer, now)
        &&& post.handle_signal == pre.handle_signal
    } else {
        &&& TimeKeeper::pause_rel(pre.timer, post.timer, now)
        &&& !post.handle_signal
    }
}

/// What a soft-drop step does: the piece moves one row down if that is a
/// legal placement and the auto-drop schedule restarts; otherwise it locks
/// in where it is.
pub open spec fn drop_post(
    pre: State,
    post: State,
    landed: bool,
    lines: Seq<usize>,
    overflow: bool,
    now: u64,
) -> bool {
    let down = shifted_piece(pre.two_blocks.spec_curr(), 0, -1);
    &&& landed == !spec_valid_position(down.spec_points(), pre)
    &&& if !landed {
        &&& lines.len() == 0
        &&& !overflow
        &&& post.two_blocks.spec_curr() == down
        &&& post.two_blocks.spec_next() == pre.two_blocks.spec_next()
        &&& post.stacked_blocks == pre.stacked_blocks
        &&& post.record == pre.record
        &&& post.size == pre.size
        &&& post.quit_signal == pre.quit_signal
        &&& post.handle_signal == pre.handle_signal
        &&& post.message == pre.message
        &&& resync_post(pre.timer, post.timer, now)
    } else {
        land_post(pre, post, lines, overflow, now)
    }
}

/// Move the falling piece one row down, or lock it in if it cannot move.
pub fn drop_step(state: &mut State, now: u64) -> (r: Outcome)
    requires
        old(state).wf(),
    ensures
        final(state).wf(),
        ({
            &&& r matches Outcome::Dropped { landed, lines, overflow }
            &&& drop_post(*old(state), *final(state), landed, lines@, overflow, now)
        }),
{
    let mut fb = *state.two_blocks.current_block();
    fb.shift(&Point::new(0, -1));
    let pts = fb.points();
    if is_valid_position(&pts, state) {
        proof {
            lemma_valid_offset_bounds(fb, *state);
        }
        let c = state.two_blocks.current_block_mut();
        *c = fb;
        state.timer.set_now(1, now);
        Outcome::Dropped { landed: false, lines: Vec::new(), overflow: false }
    } else {
        let cur = *state.two_blocks.current_block();
        let color = cur.color();
        let cur_pts = cur.points();
        state.stacked_blocks.cover(color, &cur_pts);
        let overflow = generate_new_block(state);
        let lines = state.stacked_blocks.full_lines();
        if lines.len() == 0 {
            state.timer.set_now(1, now);
        } else {
            state.timer.pause(now);
            state.handle_signal = false;
        }
        Outcome::Dropped { landed: true, lines, overflow }
    }
}

/// What completing a line clear does: the full rows vanish, the record
/// grows by their count and the triangular score, input is re-enabled,
/// the clock resumes, and the auto-drop schedule restarts from `now`.
pub open spec fn finish_post(
    pre: State,
    post: State,
    lines: Seq<usize>,
    cleared: u32,
    now: u64,
) -> bool {
    &&& pre.stacked_blocks.is_full_lines(lines)
    &&& StackedBlock::eliminate_rel(pre.stacked_blocks, post.stacked_blocks, lines)
    &&& cleared == lines.len()
    &&& post.record == (Record {
        line: (pre.record.line + cleared) as u32,
        score: (pre.record.score + triangle(cleared as nat)) as u32,
        ..pre.record
    })
    &&& post.two_blocks == pre.two_blocks
    &&& post.size == pre.size
    &&& post.quit_signal == pre.quit_signal
    &&& post.message == pre.message
    &&& post.handle_signal
    &&& !post.timer.pause
    &&& post.timer.wf()
    &&& post.timer.spec_time(1) == now
    &&& post.timer.spec_time(0) == if pre.timer.pause {
        (pre.timer.spec_time(0) + (now - pre.timer.pause_time)) as int
    } else {
        pre.timer.spec_time(0) as int
    }
}

/// Eliminate the full rows, award their score, re-enable input, and
/// restart the clock; the caller shows the blink first.
pub fn finish_clear(state: &mut State, now: u64) -> (cleared: u32)
    requires
        old(state).wf(),
        old(state).record.line + old(state).spec_row() <= u32::MAX,
        old(state).record.score + old(state).spec_row() * (old(state).spec_row() + 1) / 2
            <= u32::MAX,
        old(state).timer.pause ==> old(state).timer.pause_time <= now,
        old(state).timer.pause ==> forall|i: int|
            0 <= i < 2 ==> old(state).timer.spec_time(i) + (now - old(state).timer.pause_time)
                <= u64::MAX,
    ensures
        final(state).wf(),
        exists|lines: Seq<usize>|
            #[trigger] finish_post(*old(state), *final(state), lines, cleared, now),
{
    let lines = state.stacked_blocks.full_lines();
    proof {
        crate::block::lemma_increasing_index_bound(lines@);
        if lines@.len() > 0 {
            assert(lines@.len() - 1 <= lines@[lines@.len() - 1] < old(state).spec_row());
        }
        lemma_triangle_monotonic(lines@.len() as nat, old(state).spec_row() as nat);
        lemma_triangle_closed_form(lines@.len() as nat);
        lemma_triangle_closed_form(old(state).spec_row() as nat);
    }
    let n = lines.len() as u32;
    state.stacked_blocks.eliminate(&lines);
    let score = line_to_score(n);
    score_update(n, score, state);
    state.handle_signal = true;
    let _paused_for = state.timer.resume(now);
    state.timer.set_now(1, now);
    proof {
        assert(finish_post(*old(state), *state, lines@, n, now));
    }
    n
}

/// Let the falling piece fall until it is blocked, then lock it in.
pub fn hard_drop(state: &mut State, now: u64) -> (r: Outcome)
    requires
        old(state).wf(),
    ensures
        final(state).wf(),
        ({
            &&& r matches Outcome::Dropped { landed, lines, overflow }
            &&& landed
            &&& exists|d: int|
                #[trigger] hard_drop_post(*old(state), *final(state), d, lines@, overflow, now)
        }),
{
    let ghost pre = *state;
    let mut fb = *state.two_blocks.current_block();
    let ghost fb0 = fb;
    let ghost mut d: int = 0;
    loop
        invariant
            *state == pre,
            pre.wf(),
            fb0 == pre.two_blocks.spec_curr(),
            fb.wf(),
            d >= 0,
            fb == shifted_piece(fb0, 0, -d),
            fb.offset.x == fb0.offset.x,
            fb.offset.y == fb0.offset.y - d,
            fb.offset.y >= -9,
            forall|i: int|
                1 <= i <= d ==> spec_valid_position(
                    #[trigger] shifted_piece(fb0, 0, -i).spec_points(),
                    pre,
                ),
            d > 0 ==> fb.offset.y >= -3,
        ensures
            *state == pre,
            fb.wf(),
            d >= 0,
            fb == shifted_piece(fb0, 0, -d),
            fb.offset.x == fb0.offset.x,
            fb.offset.y == fb0.offset.y - d,
            fb.offset.y >= -9,
            forall|i: int|
                1 <= i <= d ==> spec_valid_position(
                    #[trigger] shifted_piece(fb0, 0, -i).spec_points(),
                    pre,
                ),
            !spec_valid_position(shifted_piece(fb0, 0, -(d + 1)).spec_points(), pre),
        decreases fb.offset.y + OFFSET_LIMIT,
    {
        let ghost fb_at = fb;
        fb.shift(&Point::new(0, -1));
        proof {
            assert(fb == shifted_piece(fb0, 0, -(d + 1)));
        }
        let pts = fb.points();
        if !is_valid_position(&pts, state) {
            fb.shift(&Point::new(0, 1));
            proof {
                assert(fb == fb_at);
            }
            break;
        }
        proof {
            d = d + 1;
            lemma_valid_offset_bounds(fb, pre);
        }
    }
    let c = state.two_blocks.current_block_mut();
    *c = fb;
    proof {
        if d > 0 {
            lemma_valid_offset_bounds(fb, pre);
        }
        assert(state.wf());
    }
    let ghost mid = *state;
    let r = drop_step(state, now);
    proof {
        assert(shifted_piece(mid.two_blocks.spec_curr(), 0, -1) == shifted_piece(
            fb0,
            0,
            -(d + 1),
        ));
        if let Outcome::Dropped { landed, lines, overflow } = &r {
            assert(hard_drop_post(pre, *state, d, lines@, *overflow, now));
        }
    }
    r
}

/// What a hard drop does: the piece falls `d` rows, every intermediate
/// position legal and the next one not, and locks in there.
pub open spec fn hard_drop_post(
    pre: State,
    post: State,
    d: int,
    lines: Seq<usize>,
    overflow: bool,
    now: u64,
) -> bool {
    let rested = State {
        two_blocks: TwoBlocks {
            curr: shifted_piece(pre.two_blocks.spec_curr(), 0, -d),
            ..pre.two_blocks
        },
        ..pre
    };
    &&& d >= 0
    &&& forall|i: int|
        1 <= i <= d ==> spec_valid_position(
            #[trigger] shifted_piece(pre.two_blocks.spec_curr(), 0, -i).spec_points(),
            pre,
        )
    &&& !spec_valid_position(
        shifted_piece(pre.two_blocks.spec_curr(), 0, -(d + 1)).spec_points(),
        pre,
    )
    &&& land_post(rested, post, lines, overflow, now)
}

/// The clock resumed; every other part of the state is unchanged.
pub open spec fn resume_applied(pre: State, post: State, now: u64) -> bool {
    &&& TimeKeeper::resume_rel(pre.timer, post.timer, now)
    &&& post.timer.wf()
    &&& post == (State { timer: post.timer, ..pre })
}

/// The clock paused; every other part of the state is unchanged.
pub open spec fn pause_applied(pre: State, post: State, now: u64) -> bool {
    &&& TimeKeeper::pause_rel(pre.timer, post.timer, now)
    &&& post == (State { timer: post.timer, ..pre })
}

/// The state machine: which commands are honored, in both operating
/// states. While paused only pause/resume, quit and resize are honored
/// and everything else is dropped; while playing each command acts as its
/// operation's relation says. Events are ignored entirely while input
/// handling is disabled.
pub open spec fn handle_post(pre: State, post: State, event: Event, r: Outcome, now: u64) -> bool {
    if !pre.handle_signal {
        post == pre && r is Ignored
    } else if pre.timer.pause {
        match event {
            Event::Toggle => resume_applied(pre, post, now) && r is Resumed,
            Event::Quit => post == (State { quit_signal: true, ..pre }) && r is Quitting,
            Event::Resize => post == pre && r is ResizeRequested,
            _ => post == pre && r is Ignored,
        }
    } else {
        match event {
            Event::Unknow => post == pre && r is Ignored,
            Event::Quit => post == (State { quit_signal: true, ..pre }) && r is Quitting,
            Event::Toggle => pause_applied(pre, post, now) && r is Paused,
            Event::ClockRotate => r matches Outcome::Moved { changed } && rotate_post(
                pre,
                post,
                1,
                changed,
            ),
            Event::InverseRotate => r matches Outcome::Moved { changed } && rotate_post(
                pre,
                post,
                -1,
                changed,
            ),
            Event::Drop => r matches Outcome::Dropped { landed, lines, overflow } && drop_post(
                pre,
                post,
                landed,
                lines@,
                overflow,
                now,
            ),
            Event::Left => r matches Outcome::Moved { changed } && translate_post(
                pre,
                post,
                Point { x: -1isize, y: 0isize },
                changed,
            ),
            Event::Right => r matches Outcome::Moved { changed } && translate_post(
                pre,
                post,
                Point { x: 1isize, y: 0isize },
                changed,
            ),
            Event::HardDrop => r matches Outcome::Dropped { landed, lines, overflow } && landed
                && (exists|d: int| #[trigger] hard_drop_post(pre, post, d, lines@, overflow, now)),
            Event::Resize => post == pre && r is ResizeRequested,
        }
    }
}

/// Apply one command to the session, honoring the paused/playing state
/// machine; resizing is only reported, since the caller owns the display.
pub fn handle_event(event: Event, state: &mut State, now: u64) -> (r: Outcome)
    requires
        old(state).wf(),
        old(state).timer.pause ==> old(state).timer.pause_time <= now,
        old(state).timer.pause ==> forall|i: int|
            0 <= i < 2 ==> old(state).timer.spec_time(i) + (now - old(state).timer.pause_time)
                <= u64::MAX,
    ensures
        final(state).wf(),
        handle_post(*old(state), *final(state), event, r, now),
{
    if !state.handle_signal {
        return Outcome::Ignored;
    }
    if state.timer.is_paused() {
        match event {
            Event::Toggle => {
                let _paused_for = state.timer.resume(now);
                Outcome::Resumed
            },
            Event::Quit => {
                quit(state);
                Outcome::Quitting
            },
            Event::Resize => Outcome::ResizeRequested,
            _ => Outcome::Ignored,
        }
    } else {
        match event {
            Event::Unknow => Outcome::Ignored,
            Event::Quit => {
                quit(state);
                Outcome::Quitting
            },
            Event::Toggle => {
                state.timer.pause(now);
                Outcome::Paused
            },
            Event::ClockRotate => {
                let changed = clock_rotate(state);
                Outcome::Moved { changed }
            },
            Event::InverseRotate => {
                let changed = inverse_rotate(state);
                Outcome::Moved { changed }
            },
            Event::Drop => drop_step(state, now),
            Event::Left => {
                let changed = left(state);
                Outcome::Moved { changed }
            },
            Event::Right => {
                let changed = right(state);
                Outcome::Moved { changed }
            },
            Event::HardDrop => hard_drop(state, now),
            Event::Resize => Outcome::ResizeRequested,
        }
    }
}

} // verus!
