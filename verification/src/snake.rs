//! The snake: its state and the operations of one tick.

use crate::grid::{Area, Direction, Position};
use crate::laws::{
    lemma_free_cells_membership, lemma_step_keeps_connected, lemma_step_keeps_food_clear,
    lemma_tick_keeps_running,
};
use crate::layout;
use crate::model::{is_vacant, SnakeState};
use crate::random;
use crate::trail::{lemma_encodings_agree, Trail};
use ratatui::style::Color;
use std::collections::VecDeque;
use vstd::prelude::*;

verus! {

/// The snake, its food and the rectangle it lives in.
pub struct Snake {
    direction: Direction,
    shape: VecDeque<Position>,
    food_pos: Option<Position>,
    area: Area,
    food_color: Color,
    shape_color: Color,
}

impl View for Snake {
    type V = SnakeState;

    closed spec fn view(&self) -> SnakeState {
        SnakeState {
            heading: self.direction,
            body: self.shape@,
            food: self.food_pos,
            area: self.area,
            food_color: self.food_color,
            shape_color: self.shape_color,
        }
    }
}

impl Snake {
    /// What every operation expects and keeps: the body has a head.
    pub open spec fn inv(&self) -> bool {
        self@.body.len() > 0
    }

    /// Builds a snake from what the caller supplies. Whether the body is
    /// connected, lies inside the border and misses the food is not looked at.
    pub fn new(
        direction: Direction,
        shape: VecDeque<Position>,
        food_pos: Position,
        area: Area,
        food_color: Color,
        shape_color: Color,
    ) -> (snake: Snake)
        requires
            shape@.len() > 0,
        ensures
            snake.inv(),
            snake@ == (SnakeState {
                heading: direction,
                body: shape@,
                food: Some(food_pos),
                area,
                food_color,
                shape_color,
            }),
    {
        Snake { direction, shape, food_pos: Some(food_pos), area, food_color, shape_color }
    }

    /// The heading of the last step.
    pub fn head_direction(&self) -> (heading: Direction)
        ensures
            heading == self@.heading,
    {
        self.direction
    }

    /// The cells of the body, from the tail to the head.
    pub fn shape(&self) -> (shape: &VecDeque<Position>)
        ensures
            shape@ == self@.body,
    {
        &self.shape
    }

    /// The cell of the food, if the board has room for food.
    pub fn food_pos(&self) -> (food: Option<Position>)
        ensures
            food == self@.food,
    {
        self.food_pos
    }

    /// The bounding rectangle, border included.
    pub fn area(&self) -> (area: Area)
        ensures
            area == self@.area,
    {
        self.area
    }

    /// The colour the food is painted with.
    pub fn food_color(&self) -> (color: Color)
        ensures
            color == self@.food_color,
    {
        self.food_color
    }

    /// The colour the body is painted with.
    pub fn shape_color(&self) -> (color: Color)
        ensures
            color == self@.shape_color,
    {
        self.shape_color
    }

    /// The heading that a request leads to at the next step.
    pub fn legal_direction(&self, direction: Direction) -> (heading: Direction)
        ensures
            heading == self@.heading.resolved(Some(direction)),
    {
        self.direction.resolve(Some(direction))
    }

    /// The cell of the head.
    pub fn head_pos(&self) -> (head: Position)
        requires
            self.inv(),
        ensures
            head == self@.head(),
    {
        self.shape[self.shape.len() - 1]
    }

    /// The playable rectangle: the area without its one-cell border.
    pub fn area_no_border(&self) -> (interior: Area)
        ensures
            interior == self@.area.interior(),
    {
        layout::inner(self.area, 1, 1)
    }

    /// Whether the head has left the playable rectangle.
    pub fn touches_border(&self) -> (hit: bool)
        requires
            self.inv(),
        ensures
            hit == self@.touches_border(),
    {
        !layout::contains(self.area_no_border(), self.head_pos())
    }

    /// Whether the head has run into the rest of the body.
    pub fn has_self_intersection(&self) -> (hit: bool)
        requires
            self.inv(),
        ensures
            hit == self@.has_self_intersection(),
    {
        let head = self.head_pos();
        let last: usize = self.shape.len() - 1;
        let mut i: usize = 0;
        while i < last
            invariant
                i <= last,
                last == self.shape@.len() - 1,
                head == self.shape@[last as int],
                forall|j: int| 0 <= j < i ==> self.shape@.drop_last()[j] != head,
            decreases last - i,
        {
            if self.shape[i] == head {
                assert(self.shape@.drop_last()[i as int] == head);
                return true;
            }
            i += 1;
        }
        false
    }

    /// Whether the head has a neighbour in every heading, so that a step can
    /// be taken whatever is requested.
    pub fn can_step(&self) -> (ready: bool)
        ensures
            ready == self@.can_step(),
    {
        let count: usize = self.shape.len();
        if count == 0 {
            return false;
        }
        let head = self.shape[count - 1];
        0 < head.x && head.x < u16::MAX && 0 < head.y && head.y < u16::MAX
    }

    /// The body in compact form: the tail and the straight segments that lead
    /// to the head. A body that is not connected has no such form. The trail
    /// stands for the same cells, and its segments cross the head exactly
    /// where this snake runs into itself.
    pub fn trail(&self) -> (trail: Option<Trail>)
        ensures
            trail is Some <==> self@.body.len() > 0 && self@.is_connected(),
            trail matches Some(built) ==> {
                &&& built@.wf()
                &&& built@.is_compact()
                &&& built@.cells() == self@.body
                &&& built@.crosses_head() == self@.has_self_intersection()
            },
    {
        let trail = Trail::from_cells(&self.shape);
        proof {
            if trail is Some {
                lemma_encodings_agree(trail->Some_0@, self@.body);
            }
        }
        trail
    }

    /// Whether the board has run out of room for food.
    pub fn has_won(&self) -> (won: bool)
        ensures
            won == self@.has_won(),
    {
        self.food_pos.is_none()
    }

    /// Whether the body covers the cell.
    pub fn covers(&self, cell: Position) -> (found: bool)
        ensures
            found == self@.body.contains(cell),
    {
        let mut i: usize = 0;
        while i < self.shape.len()
            invariant
                i <= self.shape@.len(),
                forall|j: int| 0 <= j < i ==> self.shape@[j] != cell,
            decreases self.shape@.len() - i,
        {
            if self.shape[i] == cell {
                return true;
            }
            i += 1;
        }
        false
    }

    /// The cells where food may go: the playable cells, row by row, that the
    /// body does not cover.
    pub fn free_cells(&self) -> (cells: Vec<Position>)
        ensures
            cells@ == self@.free_cells(),
    {
        let interior = self.area_no_border();
        let reach_x: u16 = u16::MAX - interior.x;
        let reach_y: u16 = u16::MAX - interior.y;
        let grid = Area {
            x: interior.x,
            y: interior.y,
            width: if interior.width > reach_x { reach_x } else { interior.width },
            height: if interior.height > reach_y { reach_y } else { interior.height },
        };
        let mut cells: Vec<Position> = Vec::new();
        let ghost vacant = is_vacant(self@.body);
        proof {
            reveal(Seq::filter);
            assert(grid.cells() =~= interior.cells());
        }
        if grid.width == 0 {
            assert(interior.columns() * interior.rows() == 0) by (nonlinear_arith)
                requires
                    interior.columns() == 0,
            ;
            return cells;
        }
        let all = layout::positions(grid);
        let mut i: usize = 0;
        while i < all.len()
            invariant
                i <= all@.len(),
                vacant == is_vacant(self@.body),
                cells@ == all@.take(i as int).filter(vacant),
            decreases all@.len() - i,
        {
            let cell = all[i];
            proof {
                reveal(Seq::filter);
                assert(all@.take(i + 1).drop_last() =~= all@.take(i as int));
            }
            if !self.covers(cell) {
                cells.push(cell);
            }
            i += 1;
        }
        assert(all@.take(i as int) =~= all@);
        cells
    }

    /// Puts the food at the chosen cell. A choice that is no free cell, or no
    /// choice at all, leaves the board without food.
    pub fn place_food(&mut self, choice: Option<Position>)
        ensures
            final(self)@ == old(self)@.with_food(choice),
    {
        self.food_pos = match choice {
            Some(cell) if layout::contains(self.area_no_border(), cell) && !self.covers(cell) => {
                choice
            },
            _ => None,
        };
    }

    /// Moves the food to a free cell picked at random. Where the body fills
    /// the playable rectangle the board is left without food: the game is won.
    pub fn update_food_pos(&mut self)
        ensures
            final(self)@ == (SnakeState { food: final(self)@.food, ..old(self)@ }),
            final(self)@.food_is_placed(),
    {
        let available_positions = self.free_cells();
        let choice = random::pick(&available_positions);
        proof {
            let placed = self@.with_food(choice);
            match choice {
                Some(cell) => {
                    lemma_free_cells_membership(self@, cell);
                    assert(placed.is_free(cell));
                },
                None => {
                    assert forall|cell: Position| !placed.is_free(cell) by {
                        lemma_free_cells_membership(self@, cell);
                    }
                },
            }
        }
        self.place_food(choice);
    }

    fn shift_tail(&mut self)
        requires
            old(self)@.body.len() > 1,
        ensures
            final(self)@ == (SnakeState { body: old(self)@.body.drop_first(), ..old(self)@ }),
    {
        self.shape.pop_front();
    }

    fn shift_head(&mut self, direction: Direction)
        requires
            old(self).inv(),
            old(self)@.head().can_shift(direction),
        ensures
            final(self)@ == (SnakeState {
                body: old(self)@.body.push(old(self)@.head().shifted(direction)),
                ..old(self)@
            }),
    {
        let mut new_pos = self.head_pos();
        new_pos.shift(direction);
        self.shape.push_back(new_pos);
    }

    /// Takes one step in the given heading: the head advances, and the tail
    /// follows unless the head has reached the food, which then moves on.
    pub fn move_snake(&mut self, direction: Direction)
        requires
            old(self).inv(),
            old(self)@.can_move(direction),
        ensures
            final(self).inv(),
            final(self)@ == old(self)@.moved(direction, final(self)@.food),
            old(self)@.food == Some(old(self)@.head().shifted(direction))
                ==> final(self)@.food_is_placed(),
            old(self)@.is_connected() ==> final(self)@.is_connected(),
            old(self)@.food_is_clear() ==> final(self)@.food_is_clear(),
    {
        proof {
            if self@.is_connected() {
                lemma_step_keeps_connected(self@, direction, None);
            }
        }
        self.direction = direction;
        self.shift_head(direction);
        if self.food_pos == Some(self.head_pos()) {
            self.update_food_pos();
        } else {
            self.shift_tail();
        }
        proof {
            if old(self)@.food_is_clear() {
                lemma_step_keeps_food_clear(old(self)@, direction, self@.food);
            }
        }
    }

    /// Advances the game by one tick. The request is put through the turn
    /// rule, then the snake takes one step in the heading that results.
    pub fn update_snake_position(&mut self, input: Direction)
        requires
            old(self).inv(),
            old(self)@.can_advance(input),
        ensures
            final(self).inv(),
            final(self)@ == old(self)@.advanced(input, final(self)@.food),
            old(self)@.eats(input) ==> final(self)@.food_is_placed(),
            old(self)@.is_connected() ==> final(self)@.is_connected(),
            old(self)@.food_is_clear() ==> final(self)@.food_is_clear(),
            old(self)@.is_running() && !final(self)@.is_over() ==> final(self)@.is_running(),
    {
        let heading = self.legal_direction(input);
        self.move_snake(heading);
        proof {
            if old(self)@.is_running() && !self@.is_over() {
                lemma_tick_keeps_running(old(self)@, input, self@.food);
            }
        }
    }
}

} // verus!
