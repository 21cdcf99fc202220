//! The shared game state: the score sheet, the pair of falling and
//! previewed pieces, and the session aggregate that the handler mutates.

use vstd::prelude::*;

use crate::block::{FallingBlock, Point, StackedBlock, MAX_DIM};
use crate::timer::TimeKeeper;

verus! {

/// The running score sheet: elapsed seconds, cleared lines, score, and
/// the drop-speed multiplier.
#[derive(Clone, Copy, PartialEq, Eq, Structural, Debug)]
pub struct Record {
    pub secs: u32,
    pub line: u32,
    pub score: u32,
    pub speed: u32,
}

impl Record {
    /// Well-formed: the speed multiplier never drops below one.
    pub open spec fn wf(self) -> bool {
        self.speed >= 1
    }
}

impl Default for Record {
    fn default() -> (r: Record)
        ensures
            r == (Record { secs: 0, line: 0, score: 0, speed: 1 }),
    {
        Record { secs: 0, line: 0, score: 0, speed: 1 }
    }
}

/// The falling piece and the previewed next piece. The falling piece is
/// never absent: advancing the game promotes next to current and replaces
/// next with a fresh piece.
pub struct TwoBlocks {
    pub curr: FallingBlock,
    pub next: FallingBlock,
}

impl TwoBlocks {
    /// The currently falling piece.
    pub open spec fn spec_curr(self) -> FallingBlock {
        self.curr
    }

    /// The previewed next piece.
    pub open spec fn spec_next(self) -> FallingBlock {
        self.next
    }

    /// Well-formed: both pieces are real catalog entries.
    pub open spec fn wf(self) -> bool {
        self.curr.wf() && self.next.wf()
    }

    pub fn new(curr: FallingBlock, next: FallingBlock) -> (t: TwoBlocks)
        ensures
            t.spec_curr() == curr,
            t.spec_next() == next,
    {
        TwoBlocks { curr, next }
    }

    pub fn current_block(&self) -> (r: &FallingBlock)
        ensures
            *r == self.spec_curr(),
    {
        &self.curr
    }

    pub fn current_block_mut(&mut self) -> (r: &mut FallingBlock)
        ensures
            *r == old(self).spec_curr(),
            final(self).spec_curr() == *final(r),
            final(self).spec_next() == old(self).spec_next(),
    {
        &mut self.curr
    }

    pub fn next_block(&self) -> (r: &FallingBlock)
        ensures
            *r == self.spec_next(),
    {
        &self.next
    }

    /// Promote next to current, store `block` as the new next, and hand the
    /// previously falling piece back.
    pub fn push(&mut self, block: FallingBlock) -> (r: FallingBlock)
        ensures
            final(self).spec_curr() == old(self).spec_next(),
            final(self).spec_next() == block,
            r == old(self).spec_curr(),
    {
        let out = self.curr;
        self.curr = self.next;
        self.next = block;
        out
    }
}

/// One play session's state: board size, control flags, the pausable
/// clock, the score sheet, the piece pair, the stacked grid, and the
/// message shown when the session ends abnormally.
pub struct State {
    pub size: (usize, usize),
    pub quit_signal: bool,
    pub handle_signal: bool,
    pub timer: TimeKeeper<2>,
    pub record: Record,
    pub two_blocks: TwoBlocks,
    pub stacked_blocks: StackedBlock,
    pub message: Option<String>,
}

impl State {
    /// Board width in cells.
    pub open spec fn spec_col(self) -> int {
        self.size.0 as int
    }

    /// Board height in cells.
    pub open spec fn spec_row(self) -> int {
        self.size.1 as int
    }

    /// Well-formed: the grid matches the stored size, both pieces are real
    /// catalog entries, the falling piece sits near the board, the next
    /// piece is untranslated, and clock and record are sound.
    pub open spec fn wf(self) -> bool {
        &&& 4 <= self.spec_col() <= MAX_DIM
        &&& 1 <= self.spec_row() <= MAX_DIM
        &&& self.stacked_blocks.wf()
        &&& self.stacked_blocks.spec_col() == self.spec_col()
        &&& self.stacked_blocks.spec_row() == self.spec_row()
        &&& self.two_blocks.wf()
        &&& -8 <= self.two_blocks.spec_curr().offset.x <= MAX_DIM + 8
        &&& -8 <= self.two_blocks.spec_curr().offset.y <= MAX_DIM + 8
        &&& self.two_blocks.spec_next().offset == (Point { x: 0, y: 0 })
        &&& self.timer.wf()
        &&& self.record.wf()
    }

    /// A fresh session: empty board of the given size, flags clear, clock
    /// paused at instant zero, record at its defaults.
    pub fn new(column: usize, row: usize, curr: FallingBlock, next: FallingBlock) -> (s: State)
        requires
            4 <= column <= MAX_DIM,
            1 <= row <= MAX_DIM,
            curr.wf(),
            next.wf(),
            -8 <= curr.offset.x <= MAX_DIM + 8,
            -8 <= curr.offset.y <= MAX_DIM + 8,
            next.offset == (Point { x: 0, y: 0 }),
        ensures
            s.wf(),
            s.spec_col() == column,
            s.spec_row() == row,
            !s.quit_signal,
            s.handle_signal,
            s.timer.pause,
            forall|i: int| 0 <= i < 2 ==> s.timer.spec_time(i) == 0,
            s.timer.pause_time == 0,
            s.record == (Record { secs: 0, line: 0, score: 0, speed: 1 }),
            s.two_blocks.spec_curr() == curr,
            s.two_blocks.spec_next() == next,
            forall|x: int, y: int|
                0 <= x < column && 0 <= y < row ==> #[trigger] s.stacked_blocks.cell(x, y)
                    == crate::block::CellColor::Empty,
            s.message is None,
    {
        State {
            size: (column, row),
            quit_signal: false,
            handle_signal: true,
            timer: TimeKeeper::new(0),
            record: Record::default(),
            two_blocks: TwoBlocks::new(curr, next),
            stacked_blocks: StackedBlock::new(column, row),
            message: None,
        }
    }

    pub fn get_size(&self) -> (r: (usize, usize))
        ensures
            r.0 == self.spec_col(),
            r.1 == self.spec_row(),
    {
        self.size
    }

    /// The board's footprint on screen: each cell is two characters wide.
    pub fn get_game_size(&self) -> (r: (u16, u16))
        requires
            self.wf(),
        ensures
            r.0 == 2 * self.spec_col(),
            r.1 == self.spec_row(),
    {
        let (col, row) = self.get_size();
        (2 * col as u16, row as u16)
    }

    pub fn quit(&self) -> (r: bool)
        ensures
            r == self.quit_signal,
    {
        self.quit_signal
    }
}

} // verus!
