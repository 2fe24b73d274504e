//! Headings and cells of the playing field.

use crate::input::Key;
use vstd::prelude::*;

verus! {

/// One of the four headings a snake can take. North is towards row zero.
#[derive(PartialEq, Eq, Clone, Copy, Debug, Hash, Structural)]
pub enum Direction {
    North,
    East,
    South,
    West,
}

impl Direction {
    /// The heading that points the other way.
    pub open spec fn opposite(self) -> Direction {
        match self {
            Direction::North => Direction::South,
            Direction::East => Direction::West,
            Direction::South => Direction::North,
            Direction::West => Direction::East,
        }
    }

    /// The heading that an arrow key stands for; no other key stands for one.
    pub fn from_key(key: Key) -> (heading: Option<Direction>)
        ensures
            heading == key.heading(),
    {
        match key {
            Key::Up => Some(Direction::North),
            Key::Down => Some(Direction::South),
            Key::Left => Some(Direction::West),
            Key::Right => Some(Direction::East),
            _ => None,
        }
    }

    /// Whether the other heading runs along the other axis: it is neither
    /// this heading nor its opposite.
    pub open spec fn is_perpendicular(self, other: Direction) -> bool {
        other != self && other != self.opposite()
    }

    /// The heading in force after a request: the requested one where it is
    /// perpendicular to this one, and this one where it is not or where
    /// nothing was requested.
    pub open spec fn resolved(self, requested: Option<Direction>) -> Direction {
        match requested {
            Some(wanted) if self.is_perpendicular(wanted) => wanted,
            _ => self,
        }
    }

    /// Applies the turn rule to a request. A request to go on straight, to
    /// reverse, or no request at all keeps the heading; none is an error.
    pub fn resolve(self, requested: Option<Direction>) -> (heading: Direction)
        ensures
            heading == self.resolved(requested),
    {
        match (self, requested) {
            (Direction::North, Some(Direction::East)) => Direction::East,
            (Direction::North, Some(Direction::West)) => Direction::West,
            (Direction::East, Some(Direction::North)) => Direction::North,
            (Direction::East, Some(Direction::South)) => Direction::South,
            (Direction::South, Some(Direction::East)) => Direction::East,
            (Direction::South, Some(Direction::West)) => Direction::West,
            (Direction::West, Some(Direction::North)) => Direction::North,
            (Direction::West, Some(Direction::South)) => Direction::South,
            _ => self,
        }
    }

    /// The change of the column after a number of steps in this heading.
    pub open spec fn reach_x(self, steps: int) -> int {
        match self {
            Direction::East => steps,
            Direction::West => -steps,
            _ => 0,
        }
    }

    /// The change of the row after a number of steps in this heading.
    pub open spec fn reach_y(self, steps: int) -> int {
        match self {
            Direction::South => steps,
            Direction::North => -steps,
            _ => 0,
        }
    }

    /// The change of the column after one step in this heading.
    pub open spec fn dx(self) -> int {
        self.reach_x(1)
    }

    /// The change of the row after one step in this heading.
    pub open spec fn dy(self) -> int {
        self.reach_y(1)
    }
}

/// A cell of the grid, by column and row.
#[derive(PartialEq, Eq, Clone, Copy, Debug, Hash, Structural)]
pub struct Position {
    pub x: u16,
    pub y: u16,
}

impl Position {
    /// Whether the neighbour in the given heading still has coordinates.
    pub open spec fn can_shift(self, direction: Direction) -> bool {
        &&& 0 <= self.x + direction.dx() <= u16::MAX
        &&& 0 <= self.y + direction.dy() <= u16::MAX
    }

    /// The neighbour in the given heading.
    pub open spec fn shifted(self, direction: Direction) -> Position {
        Position {
            x: (self.x + direction.dx()) as u16,
            y: (self.y + direction.dy()) as u16,
        }
    }

    /// Whether the two cells differ by one unit along exactly one axis.
    pub open spec fn is_adjacent(self, other: Position) -> bool {
        ||| self.y == other.y && (self.x - other.x == 1 || other.x - self.x == 1)
        ||| self.x == other.x && (self.y - other.y == 1 || other.y - self.y == 1)
    }

    /// The heading that leads from this cell to an adjacent one; nothing for
    /// a cell that is not adjacent.
    pub fn heading_to(self, other: Position) -> (heading: Option<Direction>)
        ensures
            match heading {
                Some(direction) => self.can_shift(direction) && self.shifted(direction) == other,
                None => !self.is_adjacent(other),
            },
    {
        if self.x == other.x {
            if self.y > other.y && self.y - other.y == 1 {
                Some(Direction::North)
            } else if other.y > self.y && other.y - self.y == 1 {
                Some(Direction::South)
            } else {
                None
            }
        } else if self.y == other.y {
            if self.x > other.x && self.x - other.x == 1 {
                Some(Direction::West)
            } else if other.x > self.x && other.x - self.x == 1 {
                Some(Direction::East)
            } else {
                None
            }
        } else {
            None
        }
    }

    /// Moves this cell one unit in the given heading.
    pub fn shift(&mut self, direction: Direction)
        requires
            old(self).can_shift(direction),
        ensures
            *final(self) == old(self).shifted(direction),
    {
        match direction {
            Direction::North => self.y -= 1,
            Direction::East => self.x += 1,
            Direction::South => self.y += 1,
            Direction::West => self.x -= 1,
        }
    }
}

/// A rectangle of cells: its top left corner and its extent.
#[derive(PartialEq, Eq, Clone, Copy, Debug, Hash, Structural)]
pub struct Area {
    pub x: u16,
    pub y: u16,
    pub width: u16,
    pub height: u16,
}

/// The sum of two coordinates, held at the largest coordinate.
pub open spec fn clamped_sum(a: u16, b: u16) -> u16 {
    if a + b > u16::MAX {
        u16::MAX
    } else {
        (a + b) as u16
    }
}

impl Area {
    /// The rectangle without cells, at the origin.
    pub open spec fn empty() -> Area {
        Area { x: 0, y: 0, width: 0, height: 0 }
    }

    /// The first column to the right of the rectangle.
    pub open spec fn right(self) -> u16 {
        clamped_sum(self.x, self.width)
    }

    /// The first row below the rectangle.
    pub open spec fn bottom(self) -> u16 {
        clamped_sum(self.y, self.height)
    }

    /// Whether the cell lies in the rectangle.
    pub open spec fn contains(self, cell: Position) -> bool {
        &&& self.x <= cell.x < self.right()
        &&& self.y <= cell.y < self.bottom()
    }

    /// The rectangle shrunk by a margin on each side; the empty rectangle
    /// where the margins do not fit.
    pub open spec fn inner(self, horizontal: u16, vertical: u16) -> Area {
        let across = clamped_sum(horizontal, horizontal);
        let down = clamped_sum(vertical, vertical);
        if self.width < across || self.height < down {
            Area::empty()
        } else {
            Area {
                x: clamped_sum(self.x, horizontal),
                y: clamped_sum(self.y, vertical),
                width: (self.width - across) as u16,
                height: (self.height - down) as u16,
            }
        }
    }

    /// The playable cells: the rectangle without its one-cell border.
    pub open spec fn interior(self) -> Area {
        self.inner(1, 1)
    }

    /// The number of columns that have coordinates.
    pub open spec fn columns(self) -> int {
        self.right() - self.x
    }

    /// The number of rows that have coordinates.
    pub open spec fn rows(self) -> int {
        self.bottom() - self.y
    }

    /// The cells of the rectangle row by row, each row from left to right.
    pub open spec fn cells(self) -> Seq<Position> {
        Seq::new(
            (self.columns() * self.rows()) as nat,
            |i: int|
                Position {
                    x: (self.x + i % self.columns()) as u16,
                    y: (self.y + i / self.columns()) as u16,
                },
        )
    }
}

} // verus!
