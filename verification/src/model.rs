//! The snake as a mathematical value, and the rules of the game over it.

use crate::grid::{Area, Direction, Position};
use ratatui::style::Color;
use vstd::prelude::*;

verus! {

/// Whether the cell at index `i` of a body is adjacent to the next one.
pub open spec fn is_step(body: Seq<Position>, i: int) -> bool {
    body[i].is_adjacent(body[i + 1])
}

/// Whether each cell of a body is adjacent to the next one.
pub open spec fn is_connected(body: Seq<Position>) -> bool {
    forall|i: int| 0 <= i < body.len() - 1 ==> #[trigger] is_step(body, i)
}

/// Whether the last cell of a body, its head, lies on another of its cells.
pub open spec fn revisits_head(body: Seq<Position>) -> bool {
    body.drop_last().contains(body.last())
}

/// The test for a cell that no part of the body covers.
pub open spec fn is_vacant(body: Seq<Position>) -> spec_fn(Position) -> bool {
    |cell: Position| !body.contains(cell)
}

/// What a snake is at one tick: its heading, its cells from the tail (first)
/// to the head (last), the food cell if the board has room for one, the
/// bounding rectangle and the two colours it is painted with.
pub struct SnakeState {
    pub heading: Direction,
    pub body: Seq<Position>,
    pub food: Option<Position>,
    pub area: Area,
    pub food_color: Color,
    pub shape_color: Color,
}

impl SnakeState {
    /// The head: the cell added last.
    pub open spec fn head(self) -> Position {
        self.body.last()
    }

    /// Whether the head lies on the border or beyond it.
    pub open spec fn touches_border(self) -> bool {
        !self.area.interior().contains(self.head())
    }

    /// Whether the head lies on another cell of the body.
    pub open spec fn has_self_intersection(self) -> bool {
        revisits_head(self.body)
    }

    /// Whether the board has run out of room for food, which ends the game
    /// in the snake's favour.
    pub open spec fn has_won(self) -> bool {
        self.food is None
    }

    /// Whether the head has a neighbour in every heading.
    pub open spec fn can_step(self) -> bool {
        &&& self.body.len() > 0
        &&& 0 < self.head().x < u16::MAX
        &&& 0 < self.head().y < u16::MAX
    }

    /// Whether the game is over for this snake: it has hit the border or
    /// itself, or it has won.
    pub open spec fn is_over(self) -> bool {
        self.touches_border() || self.has_self_intersection() || self.has_won()
    }

    /// Whether each cell of the body is adjacent to the next one.
    pub open spec fn is_connected(self) -> bool {
        is_connected(self.body)
    }

    /// Whether every cell of the body is playable.
    pub open spec fn is_inside(self) -> bool {
        forall|i: int|
            0 <= i < self.body.len() ==> self.area.interior().contains(#[trigger] self.body[i])
    }

    /// Whether the game is in progress on a board in order: the body is
    /// connected, lies inside the border and covers no cell twice, and the
    /// food lies on a free cell.
    pub open spec fn is_running(self) -> bool {
        &&& self.body.len() > 0
        &&& self.is_connected()
        &&& self.is_inside()
        &&& self.body.no_duplicates()
        &&& self.food is Some
        &&& self.food_is_placed()
    }

    /// Whether the food, if there is any, misses the body.
    pub open spec fn food_is_clear(self) -> bool {
        match self.food {
            Some(cell) => !self.body.contains(cell),
            None => true,
        }
    }

    /// Whether food may go to the cell: it is playable and the body misses it.
    pub open spec fn is_free(self, cell: Position) -> bool {
        self.area.interior().contains(cell) && !self.body.contains(cell)
    }

    /// Whether the food has been placed by the rules: it lies on a free cell
    /// or, where there is no food, no cell is free.
    pub open spec fn food_is_placed(self) -> bool {
        match self.food {
            Some(cell) => self.is_free(cell),
            None => forall|cell: Position| !self.is_free(cell),
        }
    }

    /// The cells where food may go, row by row.
    pub open spec fn free_cells(self) -> Seq<Position> {
        self.area.interior().cells().filter(is_vacant(self.body))
    }

    /// This state with the food at the chosen cell, or without food where the
    /// choice is no free cell.
    pub open spec fn with_food(self, choice: Option<Position>) -> SnakeState {
        SnakeState {
            food: match choice {
                Some(cell) if self.is_free(cell) => choice,
                _ => None,
            },
            ..self
        }
    }

    /// Whether the head can take a step in the given heading.
    pub open spec fn can_move(self, heading: Direction) -> bool {
        self.body.len() > 0 && self.head().can_shift(heading)
    }

    /// The state after a step in the given heading. The new head joins the
    /// body. Where it lands on the food the tail stays and `next_food` takes
    /// the food's place; elsewhere the tail leaves and the food stays.
    pub open spec fn moved(self, heading: Direction, next_food: Option<Position>) -> SnakeState {
        let head = self.head().shifted(heading);
        if self.food == Some(head) {
            SnakeState { heading, body: self.body.push(head), food: next_food, ..self }
        } else {
            SnakeState { heading, body: self.body.push(head).drop_first(), ..self }
        }
    }

    /// The heading of the next step after a request.
    pub open spec fn next_heading(self, request: Direction) -> Direction {
        self.heading.resolved(Some(request))
    }

    /// Whether the step after a request lands on the food.
    pub open spec fn eats(self, request: Direction) -> bool {
        self.food == Some(self.head().shifted(self.next_heading(request)))
    }

    /// Whether the head can take the step that a request leads to.
    pub open spec fn can_advance(self, request: Direction) -> bool {
        self.can_move(self.next_heading(request))
    }

    /// The state one tick after a request: a step in the heading that the turn
    /// rule gives.
    pub open spec fn advanced(self, request: Direction, next_food: Option<Position>) -> SnakeState {
        self.moved(self.next_heading(request), next_food)
    }

    /// The state after a run of ticks, one request per tick; `foods` gives,
    /// for each tick, the food to put down if the snake eats at that tick.
    pub open spec fn played(
        self,
        requests: Seq<Direction>,
        foods: Seq<Option<Position>>,
    ) -> SnakeState
        decreases requests.len(),
    {
        if requests.len() == 0 {
            self
        } else {
            self.played(requests.drop_last(), foods.drop_last()).advanced(
                requests.last(),
                foods.last(),
            )
        }
    }

    /// Whether the head can take every step of a run of ticks.
    pub open spec fn can_play(self, requests: Seq<Direction>, foods: Seq<Option<Position>>) -> bool
        decreases requests.len(),
    {
        requests.len() == 0 || {
            &&& self.can_play(requests.drop_last(), foods.drop_last())
            &&& self.played(requests.drop_last(), foods.drop_last()).can_advance(requests.last())
        }
    }
}

} // verus!
