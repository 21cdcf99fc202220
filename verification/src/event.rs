//! The command vocabulary, and the pure, stateless mapping that turns raw
//! input notifications into commands.

use vstd::prelude::*;

verus! {

/// A key code as reported by the input source, reduced to the keys the
/// game distinguishes.
#[derive(Clone, Copy, PartialEq, Eq, Structural, Debug)]
pub enum KeyCode {
    Up,
    Down,
    Left,
    Right,
    Char(char),
    Other,
}

/// The modifier state of a key press: none, control alone, or any other
/// combination.
#[derive(Clone, Copy, PartialEq, Eq, Structural, Debug)]
pub enum Modifiers {
    Empty,
    Control,
    Other,
}

/// A raw notification from the input source.
#[derive(Clone, Copy, PartialEq, Eq, Structural, Debug)]
pub enum RawEvent {
    Key(KeyCode, Modifiers),
    Resize,
    Other,
}

/// The closed set of game commands.
#[derive(Clone, Copy, PartialEq, Eq, Structural, Debug)]
pub enum Event {
    Unknow,
    Quit,
    Toggle,
    ClockRotate,
    InverseRotate,
    Drop,
    Left,
    Right,
    HardDrop,
    Resize,
}

/// The fixed key bindings: quit is `q` or control-c, pause is `p`, rotate
/// clockwise is Up or `z`, counter-clockwise is `x`, soft drop is Down,
/// hard drop is space, and the arrow keys move; anything else is unknown.
pub open spec fn spec_from_raw(value: RawEvent) -> Event {
    match value {
        RawEvent::Key(c, m) => {
            if (c == KeyCode::Char('c') && m == Modifiers::Control) || (c == KeyCode::Char('q')
                && m == Modifiers::Empty) {
                Event::Quit
            } else if c == KeyCode::Char('p') && m == Modifiers::Empty {
                Event::Toggle
            } else if (c == KeyCode::Up || c == KeyCode::Char('z')) && m == Modifiers::Empty {
                Event::ClockRotate
            } else if c == KeyCode::Char('x') && m == Modifiers::Empty {
                Event::InverseRotate
            } else if c == KeyCode::Down && m == Modifiers::Empty {
                Event::Drop
            } else if c == KeyCode::Left && m == Modifiers::Empty {
                Event::Left
            } else if c == KeyCode::Right && m == Modifiers::Empty {
                Event::Right
            } else if c == KeyCode::Char(' ') && m == Modifiers::Empty {
                Event::HardDrop
            } else {
                Event::Unknow
            }
        },
        RawEvent::Resize => Event::Resize,
        RawEvent::Other => Event::Unknow,
    }
}

impl Event {
    /// Turn one raw notification into a game command.
    pub fn from_raw(value: RawEvent) -> (r: Event)
        ensures
            r == spec_from_raw(value),
    {
        match value {
            RawEvent::Key(code, m) => match (code, m) {
                (KeyCode::Char('c'), Modifiers::Control) => Event::Quit,
                (KeyCode::Char('q'), Modifiers::Empty) => Event::Quit,
                (KeyCode::Char('p'), Modifiers::Empty) => Event::Toggle,
                (KeyCode::Up, Modifiers::Empty) => Event::ClockRotate,
                (KeyCode::Char('z'), Modifiers::Empty) => Event::ClockRotate,
                (KeyCode::Char('x'), Modifiers::Empty) => Event::InverseRotate,
                (KeyCode::Down, Modifiers::Empty) => Event::Drop,
                (KeyCode::Left, Modifiers::Empty) => Event::Left,
                (KeyCode::Right, Modifiers::Empty) => Event::Right,
                (KeyCode::Char(' '), Modifiers::Empty) => Event::HardDrop,
                _ => Event::Unknow,
            },
            RawEvent::Resize => Event::Resize,
            RawEvent::Other => Event::Unknow,
        }
    }
}

impl From<RawEvent> for Event {
    fn from(value: RawEvent) -> (r: Event)
        ensures
            r == spec_from_raw(value),
    {
        Event::from_raw(value)
    }
}

impl vstd::std_specs::convert::FromSpecImpl<RawEvent> for Event {
    open spec fn obeys_from_spec() -> bool {
        true
    }

    open spec fn from_spec(value: RawEvent) -> Event {
        spec_from_raw(value)
    }
}

} // verus!
