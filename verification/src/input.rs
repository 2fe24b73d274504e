//! What the player did during one tick, as the driver reports it.

use crate::grid::Direction;
use vstd::prelude::*;

verus! {

/// A key of the keyboard, as far as the game tells keys apart.
#[derive(PartialEq, Eq, Clone, Copy, Debug, Hash, Structural)]
pub enum Key {
    Up,
    Down,
    Left,
    Right,
    Char(char),
    Other,
}

/// What happened to a key.
#[derive(PartialEq, Eq, Clone, Copy, Debug, Hash, Structural)]
pub enum KeyKind {
    Press,
    Repeat,
    Release,
}

/// One event of the terminal.
#[derive(PartialEq, Eq, Clone, Copy, Debug, Hash, Structural)]
pub enum Event {
    Key(Key, KeyKind),
    Other,
}

/// What a pressed key asks of the game.
#[derive(PartialEq, Eq, Clone, Copy, Debug, Hash, Structural)]
pub enum KeyAction {
    Quit,
    Turn(Direction),
    Ignore,
}

impl Key {
    /// The heading that an arrow key stands for.
    pub open spec fn heading(self) -> Option<Direction> {
        match self {
            Key::Up => Some(Direction::North),
            Key::Down => Some(Direction::South),
            Key::Left => Some(Direction::West),
            Key::Right => Some(Direction::East),
            _ => None,
        }
    }

    /// What pressing this key asks for: `q` quits, an arrow turns.
    pub open spec fn action(self) -> KeyAction {
        match self.heading() {
            Some(direction) => KeyAction::Turn(direction),
            None => if self == Key::Char('q') {
                KeyAction::Quit
            } else {
                KeyAction::Ignore
            },
        }
    }
}

impl Event {
    /// What the event asks of the game. Only a key that goes down counts.
    pub open spec fn action(self) -> KeyAction {
        match self {
            Event::Key(key, KeyKind::Press) => key.action(),
            _ => KeyAction::Ignore,
        }
    }
}

/// Whether one of the events asks to quit.
pub open spec fn quit_requested(events: Seq<Event>) -> bool {
    exists|i: int| 0 <= i < events.len() && (#[trigger] events[i]).action() == KeyAction::Quit
}

/// The turn that the events ask for: that of the last arrow key pressed, if
/// there was one.
pub open spec fn requested_turn(events: Seq<Event>) -> Option<Direction>
    decreases events.len(),
{
    if events.len() == 0 {
        None
    } else {
        match events.last().action() {
            KeyAction::Turn(direction) => Some(direction),
            _ => requested_turn(events.drop_last()),
        }
    }
}

} // verus!
