//! One game from the first tick to the last: the snake and whether the game
//! goes on. The driver reads the terminal's events and paints; what they
//! mean for the game is decided here.

use crate::grid::{Area, Direction, Position};
use crate::input::{quit_requested, requested_turn, Event, Key, KeyAction, KeyKind};
use crate::laws::lemma_inside_can_step;
use crate::model::SnakeState;
use crate::snake::Snake;
use ratatui::style::Color;
use std::collections::VecDeque;
use vstd::prelude::*;

verus! {

/// A game in progress or at its end.
pub struct App {
    exit: bool,
    snake: Snake,
}

/// A game as a mathematical value.
pub struct AppState {
    pub exit: bool,
    pub snake: SnakeState,
}

impl View for App {
    type V = AppState;

    closed spec fn view(&self) -> AppState {
        AppState { exit: self.exit, snake: self.snake@ }
    }
}

/// The body that every game starts with: six cells down the second column.
pub open spec fn initial_body() -> Seq<Position> {
    seq![
        Position { x: 1, y: 2 },
        Position { x: 1, y: 3 },
        Position { x: 1, y: 4 },
        Position { x: 1, y: 5 },
        Position { x: 1, y: 6 },
        Position { x: 1, y: 7 },
    ]
}

impl AppState {
    /// The heading handed to the snake for the next step: the requested turn,
    /// or the present heading where nothing was requested.
    pub open spec fn request(self, events: Seq<Event>) -> Direction {
        match requested_turn(events) {
            Some(direction) => direction,
            None => self.snake.heading,
        }
    }

    /// The game after one tick, given the events of the tick and the food
    /// that is on the board afterwards. A game that has ended stays as it is.
    /// Otherwise the snake advances, and the game ends where the player asked
    /// to quit or the snake's game is over.
    pub open spec fn ticked(self, events: Seq<Event>, next_food: Option<Position>) -> AppState {
        if self.exit {
            self
        } else {
            let snake = self.snake.advanced(self.request(events), next_food);
            AppState { exit: quit_requested(events) || snake.is_over(), snake }
        }
    }
}

impl App {
    /// What every operation expects and keeps: the snake has a head, and
    /// while the game goes on the head has room for one more step.
    pub open spec fn inv(&self) -> bool {
        &&& self@.snake.body.len() > 0
        &&& !self@.exit ==> self@.snake.can_step()
    }

    /// Starts a game in the given rectangle, the snake heading east. The
    /// board is in order where the rectangle has room for the first body
    /// and the first food.
    pub fn new(area: Area, food_color: Color, shape_color: Color) -> (app: App)
        ensures
            app.inv(),
            area.interior().contains(Position { x: 1, y: 2 }) && area.interior().contains(
                Position { x: 3, y: 7 },
            ) ==> app@.snake.is_running(),
            app@ == (AppState {
                exit: false,
                snake: SnakeState {
                    heading: Direction::East,
                    body: initial_body(),
                    food: Some(Position { x: 3, y: 2 }),
                    area,
                    food_color,
                    shape_color,
                },
            }),
    {
        let mut shape: VecDeque<Position> = VecDeque::new();
        shape.push_back(Position { x: 1, y: 2 });
        shape.push_back(Position { x: 1, y: 3 });
        shape.push_back(Position { x: 1, y: 4 });
        shape.push_back(Position { x: 1, y: 5 });
        shape.push_back(Position { x: 1, y: 6 });
        shape.push_back(Position { x: 1, y: 7 });
        assert(shape@ =~= initial_body());
        App {
            exit: false,
            snake: Snake::new(
                Direction::East,
                shape,
                Position { x: 3, y: 2 },
                area,
                food_color,
                shape_color,
            ),
        }
    }

    /// Whether the game has ended.
    pub fn should_exit(&self) -> (exit: bool)
        ensures
            exit == self@.exit,
    {
        self.exit
    }

    /// The snake, for painting.
    pub fn snake(&self) -> (snake: &Snake)
        ensures
            snake@ == self@.snake,
    {
        &self.snake
    }

    /// Ends the game.
    pub fn exit(&mut self)
        ensures
            final(self)@ == (AppState { exit: true, ..old(self)@ }),
    {
        self.exit = true;
    }

    /// What pressing a key asks of the game.
    pub fn handle_key_press(key: Key) -> (action: KeyAction)
        ensures
            action == key.action(),
    {
        match key {
            Key::Char('q') => KeyAction::Quit,
            Key::Left | Key::Right | Key::Up | Key::Down => match Direction::from_key(key) {
                Some(direction) => KeyAction::Turn(direction),
                None => KeyAction::Ignore,
            },
            _ => KeyAction::Ignore,
        }
    }

    /// Plays one tick with the events that arrived during it.
    pub fn update_state(&mut self, events: &Vec<Event>)
        requires
            old(self).inv(),
        ensures
            final(self).inv(),
            final(self)@ == old(self)@.ticked(events@, final(self)@.snake.food),
            !old(self)@.exit && old(self)@.snake.eats(old(self)@.request(events@))
                ==> final(self)@.snake.food_is_placed(),
            old(self)@.snake.is_running() && !final(self)@.exit
                ==> final(self)@.snake.is_running(),
    {
        if self.exit {
            return;
        }
        let mut next_direction = self.snake.head_direction();
        let mut quit = false;
        let mut i: usize = 0;
        while i < events.len()
            invariant
                i <= events@.len(),
                quit == quit_requested(events@.take(i as int)),
                next_direction == (match requested_turn(events@.take(i as int)) {
                    Some(direction) => direction,
                    None => self@.snake.heading,
                }),
            decreases events@.len() - i,
        {
            proof {
                let seen = events@.take(i + 1);
                assert(seen.drop_last() =~= events@.take(i as int));
                assert(seen.last() == events@[i as int]);
                if quit_requested(seen.drop_last()) {
                    let j = choose|j: int|
                        0 <= j < i && (#[trigger] seen.drop_last()[j]).action() == KeyAction::Quit;
                    assert(seen[j].action() == KeyAction::Quit);
                }
                if quit_requested(seen) {
                    let j = choose|j: int|
                        0 <= j < i + 1 && (#[trigger] seen[j]).action() == KeyAction::Quit;
                    if j < i {
                        assert(seen.drop_last()[j].action() == KeyAction::Quit);
                    }
                }
            }
            match events[i] {
                Event::Key(key, KeyKind::Press) => match App::handle_key_press(key) {
                    KeyAction::Quit => {
                        quit = true;
                    },
                    KeyAction::Turn(direction) => {
                        next_direction = direction;
                    },
                    KeyAction::Ignore => {},
                },
                _ => {},
            }
            i += 1;
        }
        assert(events@.take(i as int) =~= events@);
        self.snake.update_snake_position(next_direction);
        let over = self.snake.touches_border() || self.snake.has_self_intersection()
            || self.snake.has_won();
        if quit || over {
            self.exit();
        }
        proof {
            if !self@.snake.touches_border() {
                lemma_inside_can_step(self@.snake);
            }
        }
    }
}

} // verus!
