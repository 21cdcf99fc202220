//! Screen layout: where the board, the record panel and the next-piece
//! preview sit inside the terminal, and the textual clock readout. All of
//! it is arithmetic on sizes; the drawing itself lives with the caller.

use vstd::prelude::*;
use vstd::string::StringExecFns;

verus! {

/// Width of the next-piece frame: a piece is four cells of two characters,
/// plus borders and padding.
pub const NEXT_BLOCK_FRAME_WIDTH: u16 = 11;

/// Height of the next-piece frame: four piece rows plus title and borders.
pub const NEXT_BLOCK_FRAME_HEIGHT: u16 = 8;

/// Width of a record label column.
pub const RECORD_LEFT_WIDTH: u16 = 7;

/// Width of a record value column.
pub const RECORD_RIGHT_WIDTH: u16 = 10;

/// Width of the record frame: both columns plus borders.
pub const RECORD_FRAME_WIDTH: u16 = RECORD_LEFT_WIDTH + RECORD_RIGHT_WIDTH + 2;

/// Height of the record frame: four record rows plus title and borders.
pub const RECORD_FRAME_HEIGHT: u16 = 8;

/// Width of the side column right of the board: the wider of the record
/// frame and the next-piece frame.
pub const RIGHT_SIDE_WIDTH: u16 = RECORD_FRAME_WIDTH;

/// The screen footprint the game needs for a board footprint `game_size`:
/// the board, its border, and the side column.
pub open spec fn needed_size(game_size: (u16, u16)) -> (int, int) {
    (game_size.0 + 2 + RIGHT_SIDE_WIDTH, game_size.1 + 2)
}

/// Check that the terminal is large enough; either way, hand back the
/// actual and needed width and height pairs.
pub fn test_terminal_size(game_size: (u16, u16), terminal_size: (u16, u16)) -> (r: Result<
    ((u16, u16), (u16, u16)),
    ((u16, u16), (u16, u16)),
>)
    requires
        game_size.0 + 2 + RIGHT_SIDE_WIDTH <= u16::MAX,
        game_size.1 + 2 <= u16::MAX,
    ensures
        ({
            let (need_c, need_r) = needed_size(game_size);
            let fits = terminal_size.0 >= need_c && terminal_size.1 >= need_r;
            let dims = ((terminal_size.0, need_c as u16), (terminal_size.1, need_r as u16));
            if fits {
                r == Ok::<((u16, u16), (u16, u16)), ((u16, u16), (u16, u16))>(dims)
            } else {
                r == Err::<((u16, u16), (u16, u16)), ((u16, u16), (u16, u16))>(dims)
            }
        }),
{
    let (col, row) = terminal_size;
    let c = game_size.0 + 2 + RIGHT_SIDE_WIDTH;
    let r = game_size.1 + 2;
    if row >= r && col >= c {
        Ok(((col, c), (row, r)))
    } else {
        Err(((col, c), (row, r)))
    }
}

/// The whole game's borders inside the terminal, centered: top, bottom,
/// left, right, and the column separating the board from the side panels.
pub fn get_global_borders(game_size: (u16, u16), terminal_size: (u16, u16)) -> (r: (
    u16,
    u16,
    u16,
    u16,
    u16,
))
    requires
        game_size.0 + 2 + RIGHT_SIDE_WIDTH <= terminal_size.0,
        game_size.1 + 2 <= terminal_size.1,
    ensures
        ({
            let (need_c, need_r) = needed_size(game_size);
            let top = (terminal_size.1 - need_r) / 2;
            let left = (terminal_size.0 - need_c) / 2;
            &&& r.0 == top
            &&& r.1 == top + need_r - 1
            &&& r.2 == left
            &&& r.3 == left + need_c - 1
            &&& r.4 == left + need_c - 1 - RIGHT_SIDE_WIDTH
        }),
{
    let c = game_size.0 + 2 + RIGHT_SIDE_WIDTH;
    let r = game_size.1 + 2;
    let (col, row) = terminal_size;
    let top = (row - r) / 2;
    let bottom = top + r - 1;
    let left = (col - c) / 2;
    let right = left + c - 1;
    let middle = right - RIGHT_SIDE_WIDTH;
    (top, bottom, left, right, middle)
}

/// The borders one step inside `(top, bottom, left, right)`.
pub fn get_inner_borders(borders: (u16, u16, u16, u16)) -> (r: (u16, u16, u16, u16))
    requires
        borders.0 + 1 <= u16::MAX,
        borders.1 >= 1,
        borders.2 + 1 <= u16::MAX,
        borders.3 >= 1,
    ensures
        r.0 == borders.0 + 1,
        r.1 == borders.1 - 1,
        r.2 == borders.2 + 1,
        r.3 == borders.3 - 1,
{
    let (top, bottom, left, right) = borders;
    (top + 1, bottom - 1, left + 1, right - 1)
}

/// The playing field's frame.
pub struct GameFrame;

impl GameFrame {
    /// The board area: the global borders up to the side column.
    pub fn get_borders(game_size: (u16, u16), terminal_size: (u16, u16)) -> (r: (
        u16,
        u16,
        u16,
        u16,
    ))
        requires
            game_size.0 + 2 + RIGHT_SIDE_WIDTH <= terminal_size.0,
            game_size.1 + 2 <= terminal_size.1,
        ensures
            ({
                let (need_c, need_r) = needed_size(game_size);
                let top = (terminal_size.1 - need_r) / 2;
                let left = (terminal_size.0 - need_c) / 2;
                &&& r.0 == top
                &&& r.1 == top + need_r - 1
                &&& r.2 == left
                &&& r.3 == left + need_c - 1 - RIGHT_SIDE_WIDTH
            }),
    {
        let (top, bottom, left, _right, middle) = get_global_borders(game_size, terminal_size);
        (top, bottom, left, middle)
    }
}

/// The score sheet's frame.
pub struct RecordFrame;

impl RecordFrame {
    /// The record panel: anchored to the bottom of the side column.
    pub fn get_borders(game_size: (u16, u16), terminal_size: (u16, u16)) -> (r: (
        u16,
        u16,
        u16,
        u16,
    ))
        requires
            game_size.0 + 2 + RIGHT_SIDE_WIDTH <= terminal_size.0,
            game_size.1 + 2 <= terminal_size.1,
            RECORD_FRAME_HEIGHT <= (terminal_size.1 - (game_size.1 + 2)) / 2 + game_size.1 + 1,
        ensures
            ({
                let (need_c, need_r) = needed_size(game_size);
                let top = (terminal_size.1 - need_r) / 2;
                let left = (terminal_size.0 - need_c) / 2;
                let bottom = top + need_r - 1;
                let middle = left + need_c - 1 - RIGHT_SIDE_WIDTH;
                &&& r.0 == bottom - RECORD_FRAME_HEIGHT
                &&& r.1 == bottom
                &&& r.2 == middle + 1
                &&& r.3 == middle + 1 + RECORD_FRAME_WIDTH
            }),
    {
        let (_top, bottom, _left, _right, middle) = get_global_borders(game_size, terminal_size);
        let (top, left) = (bottom - RECORD_FRAME_HEIGHT, middle + 1);
        let right = left + RECORD_FRAME_WIDTH;
        (top, bottom, left, right)
    }

    /// `secs` as `hh:mm:ss`, each part zero-padded to two digits and the
    /// hour part growing as needed.
    pub fn secs_to_string(secs: u32) -> (s: String)
        ensures
            s@ == spec_clock_text(secs as int),
    {
        let sec = secs % 60;
        let min = secs / 60 % 60;
        let hour = secs / 60 / 60;
        let mut out = pad2(hour);
        proof {
            reveal_strlit(":");
        }
        out.append(":");
        let min_text = pad2(min);
        out.append(min_text.as_str());
        out.append(":");
        let sec_text = pad2(sec);
        out.append(sec_text.as_str());
        out
    }
}

/// The next-piece preview's frame.
pub struct NextBlockFrame;

impl NextBlockFrame {
    /// The preview panel: anchored to the top of the side column.
    pub fn get_borders(game_size: (u16, u16), terminal_size: (u16, u16)) -> (r: (
        u16,
        u16,
        u16,
        u16,
    ))
        requires
            game_size.0 + 2 + RIGHT_SIDE_WIDTH <= terminal_size.0,
            game_size.1 + 2 <= terminal_size.1,
            (terminal_size.1 - (game_size.1 + 2)) / 2 + NEXT_BLOCK_FRAME_HEIGHT <= u16::MAX,
        ensures
            ({
                let (need_c, need_r) = needed_size(game_size);
                let top = (terminal_size.1 - need_r) / 2;
                let left = (terminal_size.0 - need_c) / 2;
                let middle = left + need_c - 1 - RIGHT_SIDE_WIDTH;
                &&& r.0 == top
                &&& r.1 == top + NEXT_BLOCK_FRAME_HEIGHT - 1
                &&& r.2 == middle + 1
                &&& r.3 == middle + 1 + NEXT_BLOCK_FRAME_WIDTH
            }),
    {
        let (top, _bottom, _left, _right, middle) = get_global_borders(game_size, terminal_size);
        let (bottom, left) = (top + NEXT_BLOCK_FRAME_HEIGHT - 1, middle + 1);
        let right = left + NEXT_BLOCK_FRAME_WIDTH;
        (top, bottom, left, right)
    }
}

/// The decimal digit character for `d` in 0..10.
pub open spec fn spec_digit(d: int) -> char {
    if d == 0 {
        '0'
    } else if d == 1 {
        '1'
    } else if d == 2 {
        '2'
    } else if d == 3 {
        '3'
    } else if d == 4 {
        '4'
    } else if d == 5 {
        '5'
    } else if d == 6 {
        '6'
    } else if d == 7 {
        '7'
    } else if d == 8 {
        '8'
    } else {
        '9'
    }
}

/// The decimal digits of `n`, most significant first.
pub open spec fn spec_decimal(n: int) -> Seq<char>
    decreases n,
{
    if n < 10 {
        seq![spec_digit(n)]
    } else {
        spec_decimal(n / 10) + seq![spec_digit(n % 10)]
    }
}

/// `n` in decimal, zero-padded on the left to at least two digits.
pub open spec fn spec_pad2(n: int) -> Seq<char> {
    if n < 10 {
        seq!['0', spec_digit(n)]
    } else {
        spec_decimal(n)
    }
}

/// The clock readout `hh:mm:ss` for an elapsed-seconds count.
pub open spec fn spec_clock_text(secs: int) -> Seq<char> {
    spec_pad2(secs / 60 / 60) + seq![':'] + spec_pad2(secs / 60 % 60) + seq![':'] + spec_pad2(
        secs % 60,
    )
}

/// The one-character string for the digit `d`.
fn digit_str(d: u32) -> (r: &'static str)
    requires
        d < 10,
    ensures
        r@ == seq![spec_digit(d as int)],
{
    proof {
        reveal_strlit("0");
        reveal_strlit("1");
        reveal_strlit("2");
        reveal_strlit("3");
        reveal_strlit("4");
        reveal_strlit("5");
        reveal_strlit("6");
        reveal_strlit("7");
        reveal_strlit("8");
        reveal_strlit("9");
    }
    match d {
        0 => "0",
        1 => "1",
        2 => "2",
        3 => "3",
        4 => "4",
        5 => "5",
        6 => "6",
        7 => "7",
        8 => "8",
        _ => "9",
    }
}

/// `n` in decimal.
fn decimal(n: u32) -> (s: String)
    ensures
        s@ == spec_decimal(n as int),
    decreases n,
{
    if n < 10 {
        let mut s = String::new();
        s.append(digit_str(n));
        s
    } else {
        let mut s = decimal(n / 10);
        s.append(digit_str(n % 10));
        s
    }
}

/// `n` in decimal, zero-padded on the left to at least two digits.
fn pad2(n: u32) -> (s: String)
    ensures
        s@ == spec_pad2(n as int),
{
    if n < 10 {
        proof {
            reveal_strlit("0");
        }
        let mut s = String::new();
        s.append("0");
        s.append(digit_str(n));
        s
    } else {
        decimal(n)
    }
}

} // verus!
