use ratatui::style::Color;
use snake_engine::grid::{Area, Direction, Position};
use snake_engine::snake::Snake;
use std::collections::VecDeque;

fn cells(list: &[(u16, u16)]) -> Vec<Position> {
    list.iter().map(|&(x, y)| Position { x, y }).collect()
}

fn board(width: u16, height: u16) -> Area {
    Area { x: 0, y: 0, width, height }
}

fn snake_in(area: Area, heading: Direction, body: &[(u16, u16)], food: (u16, u16)) -> Snake {
    Snake::new(
        heading,
        cells(body).into_iter().collect::<VecDeque<Position>>(),
        Position { x: food.0, y: food.1 },
        area,
        Color::Yellow,
        Color::Green,
    )
}

fn body_of(snake: &Snake) -> Vec<Position> {
    snake.shape().iter().copied().collect()
}

#[test]
fn new_keeps_what_it_is_given() {
    let snake = snake_in(board(12, 12), Direction::South, &[(4, 4), (4, 5)], (7, 7));
    assert_eq!(snake.head_direction(), Direction::South);
    assert_eq!(body_of(&snake), cells(&[(4, 4), (4, 5)]));
    assert_eq!(snake.food_pos(), Some(Position { x: 7, y: 7 }));
    assert_eq!(snake.area(), board(12, 12));
    assert_eq!(snake.food_color(), Color::Yellow);
    assert_eq!(snake.shape_color(), Color::Green);
    assert_eq!(snake.head_pos(), Position { x: 4, y: 5 });
    assert!(!snake.has_won());
}

#[test]
fn turn_north_from_east_moves_the_whole_body() {
    let mut snake = snake_in(
        board(12, 12),
        Direction::East,
        &[(1, 2), (1, 3), (1, 4), (1, 5), (1, 6), (1, 7)],
        (3, 2),
    );
    snake.update_snake_position(Direction::North);
    assert_eq!(snake.head_direction(), Direction::North);
    assert_eq!(snake.head_pos(), Position { x: 1, y: 6 });
    assert_eq!(body_of(&snake), cells(&[(1, 3), (1, 4), (1, 5), (1, 6), (1, 7), (1, 6)]));
    assert_eq!(snake.shape().len(), 6);
    assert_eq!(snake.food_pos(), Some(Position { x: 3, y: 2 }));
    assert!(snake.has_self_intersection());
    assert!(!snake.touches_border());
}

#[test]
fn turn_north_from_east_with_the_head_on_top() {
    let mut snake = snake_in(
        board(12, 12),
        Direction::East,
        &[(1, 7), (1, 6), (1, 5), (1, 4), (1, 3), (1, 2)],
        (3, 2),
    );
    snake.update_snake_position(Direction::North);
    assert_eq!(snake.head_direction(), Direction::North);
    assert_eq!(snake.head_pos(), Position { x: 1, y: 1 });
    assert_eq!(body_of(&snake), cells(&[(1, 6), (1, 5), (1, 4), (1, 3), (1, 2), (1, 1)]));
    assert_eq!(snake.shape().len(), 6);
    assert_eq!(snake.food_pos(), Some(Position { x: 3, y: 2 }));
    assert!(!snake.has_self_intersection());
    assert!(!snake.touches_border());
}

#[test]
fn request_to_reverse_goes_on_straight() {
    let mut snake = snake_in(board(12, 12), Direction::East, &[(2, 2), (3, 2)], (8, 8));
    snake.update_snake_position(Direction::West);
    assert_eq!(snake.head_direction(), Direction::East);
    assert_eq!(body_of(&snake), cells(&[(3, 2), (4, 2)]));
}

#[test]
fn request_for_the_present_heading_goes_on_straight() {
    let mut snake = snake_in(board(12, 12), Direction::South, &[(2, 2), (2, 3)], (8, 8));
    snake.update_snake_position(Direction::South);
    assert_eq!(snake.head_direction(), Direction::South);
    assert_eq!(body_of(&snake), cells(&[(2, 3), (2, 4)]));
}

#[test]
fn legal_direction_applies_the_turn_rule() {
    let snake = snake_in(board(12, 12), Direction::North, &[(5, 5)], (8, 8));
    assert_eq!(snake.legal_direction(Direction::North), Direction::North);
    assert_eq!(snake.legal_direction(Direction::South), Direction::North);
    assert_eq!(snake.legal_direction(Direction::East), Direction::East);
    assert_eq!(snake.legal_direction(Direction::West), Direction::West);
}

#[test]
fn move_snake_takes_the_heading_as_given() {
    let mut snake = snake_in(board(12, 12), Direction::East, &[(5, 5), (6, 5)], (8, 8));
    snake.move_snake(Direction::West);
    assert_eq!(snake.head_direction(), Direction::West);
    assert_eq!(body_of(&snake), cells(&[(6, 5), (5, 5)]));
}

#[test]
fn eating_grows_by_one_and_moves_the_food_off_the_body() {
    let mut snake = snake_in(board(6, 5), Direction::East, &[(1, 1), (2, 1)], (3, 1));
    snake.update_snake_position(Direction::East);
    assert_eq!(body_of(&snake), cells(&[(1, 1), (2, 1), (3, 1)]));
    let food = snake.food_pos().expect("the board has free cells");
    assert!(!body_of(&snake).contains(&food));
    assert!(1 <= food.x && food.x <= 4 && 1 <= food.y && food.y <= 3);
    assert!(snake.free_cells().contains(&food));
    assert!(!snake.has_won());
}

#[test]
fn food_is_never_on_the_body_after_many_meals() {
    for _ in 0..50 {
        let mut snake = snake_in(board(12, 4), Direction::East, &[(1, 1)], (2, 1));
        for step in 0..9u16 {
            let before = snake.shape().len();
            let food = snake.food_pos().expect("food is on the board");
            let ate = food == Position { x: 2 + step, y: 1 };
            snake.update_snake_position(Direction::East);
            let body = body_of(&snake);
            assert_eq!(body.len(), if ate { before + 1 } else { before });
            let food = snake.food_pos().expect("the board is not full");
            assert!(!body.contains(&food));
            assert!(1 <= food.x && food.x <= 10 && 1 <= food.y && food.y <= 2);
        }
    }
}

#[test]
fn filling_the_board_wins_the_game() {
    let mut snake = snake_in(board(4, 3), Direction::East, &[(1, 1)], (2, 1));
    snake.update_snake_position(Direction::East);
    assert_eq!(body_of(&snake), cells(&[(1, 1), (2, 1)]));
    assert_eq!(snake.food_pos(), None);
    assert!(snake.has_won());
    assert!(snake.free_cells().is_empty());
    assert!(!snake.touches_border());
    assert!(!snake.has_self_intersection());
}

#[test]
fn last_free_cell_is_the_only_choice() {
    let mut snake = snake_in(board(5, 3), Direction::East, &[(1, 1)], (2, 1));
    snake.update_snake_position(Direction::East);
    assert_eq!(snake.food_pos(), Some(Position { x: 3, y: 1 }));
    snake.update_food_pos();
    assert_eq!(snake.food_pos(), Some(Position { x: 3, y: 1 }));
}

#[test]
fn free_cells_come_row_by_row_without_the_body() {
    let snake = snake_in(board(5, 4), Direction::East, &[(1, 1), (2, 1), (2, 2)], (3, 2));
    assert_eq!(snake.free_cells(), cells(&[(3, 1), (1, 2), (3, 2)]));
}

#[test]
fn free_cells_follow_the_corner_of_the_area() {
    let area = Area { x: 10, y: 20, width: 4, height: 5 };
    let snake = snake_in(area, Direction::East, &[(11, 22)], (12, 22));
    assert_eq!(
        snake.free_cells(),
        cells(&[(11, 21), (12, 21), (12, 22), (11, 23), (12, 23)])
    );
}

#[test]
fn area_of_two_columns_has_no_free_cell() {
    let snake = snake_in(board(2, 6), Direction::East, &[(0, 0)], (0, 1));
    assert!(snake.free_cells().is_empty());
    let snake = snake_in(board(6, 2), Direction::East, &[(0, 0)], (0, 1));
    assert!(snake.free_cells().is_empty());
    let snake = snake_in(board(1, 1), Direction::East, &[(0, 0)], (0, 1));
    assert!(snake.free_cells().is_empty());
}

#[test]
fn free_cells_stop_where_coordinates_end() {
    let area = Area { x: u16::MAX - 5, y: 0, width: 10, height: 4 };
    let snake = snake_in(area, Direction::East, &[(u16::MAX - 4, 1)], (u16::MAX - 3, 1));
    let free = snake.free_cells();
    assert_eq!(
        free,
        cells(&[
            (u16::MAX - 3, 1),
            (u16::MAX - 2, 1),
            (u16::MAX - 1, 1),
            (u16::MAX - 4, 2),
            (u16::MAX - 3, 2),
            (u16::MAX - 2, 2),
            (u16::MAX - 1, 2),
        ])
    );
}

#[test]
fn area_no_border_shrinks_by_one_on_each_side() {
    let snake = snake_in(Area { x: 2, y: 3, width: 10, height: 8 }, Direction::East, &[(5, 5)], (6, 6));
    assert_eq!(snake.area_no_border(), Area { x: 3, y: 4, width: 8, height: 6 });
    let snake = snake_in(board(2, 2), Direction::East, &[(5, 5)], (6, 6));
    assert_eq!(snake.area_no_border(), Area { x: 1, y: 1, width: 0, height: 0 });
}

#[test]
fn area_too_small_for_a_border_has_no_interior() {
    let snake = snake_in(Area { x: 4, y: 4, width: 1, height: 9 }, Direction::East, &[(5, 5)], (6, 6));
    assert_eq!(snake.area_no_border(), Area { x: 0, y: 0, width: 0, height: 0 });
    let snake = snake_in(Area { x: 4, y: 4, width: 9, height: 0 }, Direction::East, &[(5, 5)], (6, 6));
    assert_eq!(snake.area_no_border(), Area { x: 0, y: 0, width: 0, height: 0 });
}

#[test]
fn head_on_the_border_touches_it() {
    let (w, h) = (12u16, 9u16);
    for y in 0..h {
        assert!(snake_in(board(w, h), Direction::East, &[(0, y)], (5, 5)).touches_border());
        assert!(snake_in(board(w, h), Direction::East, &[(w - 1, y)], (5, 5)).touches_border());
    }
    for x in 0..w {
        assert!(snake_in(board(w, h), Direction::East, &[(x, 0)], (5, 5)).touches_border());
        assert!(snake_in(board(w, h), Direction::East, &[(x, h - 1)], (5, 5)).touches_border());
    }
}

#[test]
fn head_strictly_inside_does_not_touch_the_border() {
    let (w, h) = (12u16, 9u16);
    for x in 1..=w - 2 {
        for y in 1..=h - 2 {
            assert!(!snake_in(board(w, h), Direction::East, &[(x, y)], (5, 5)).touches_border());
        }
    }
}

#[test]
fn head_beyond_the_border_touches_it() {
    assert!(snake_in(board(12, 9), Direction::East, &[(40, 4)], (5, 5)).touches_border());
    assert!(snake_in(board(12, 9), Direction::East, &[(4, 40)], (5, 5)).touches_border());
}

#[test]
fn only_the_head_counts_for_the_border() {
    let snake = snake_in(board(12, 9), Direction::East, &[(0, 0), (0, 1), (1, 1)], (5, 5));
    assert!(!snake.touches_border());
}

#[test]
fn step_onto_the_border_is_taken_and_reported() {
    let mut snake = snake_in(board(6, 6), Direction::East, &[(3, 1), (4, 1)], (2, 2));
    assert!(!snake.touches_border());
    snake.update_snake_position(Direction::East);
    assert_eq!(body_of(&snake), cells(&[(4, 1), (5, 1)]));
    assert!(snake.touches_border());
}

#[test]
fn step_into_the_body_is_taken_and_reported() {
    let mut snake = snake_in(
        board(12, 12),
        Direction::West,
        &[(3, 3), (4, 3), (5, 3), (5, 4), (4, 4)],
        (8, 8),
    );
    assert!(!snake.has_self_intersection());
    snake.update_snake_position(Direction::North);
    assert_eq!(snake.head_pos(), Position { x: 4, y: 3 });
    assert!(snake.has_self_intersection());
}

#[test]
fn head_may_follow_the_tail_that_leaves() {
    let mut snake = snake_in(
        board(12, 12),
        Direction::West,
        &[(4, 3), (5, 3), (5, 4), (4, 4)],
        (8, 8),
    );
    snake.update_snake_position(Direction::North);
    assert_eq!(body_of(&snake), cells(&[(5, 3), (5, 4), (4, 4), (4, 3)]));
    assert!(!snake.has_self_intersection());
}

#[test]
fn covers_tells_body_cells_from_others() {
    let snake = snake_in(board(12, 12), Direction::East, &[(1, 1), (2, 1)], (3, 1));
    assert!(snake.covers(Position { x: 1, y: 1 }));
    assert!(snake.covers(Position { x: 2, y: 1 }));
    assert!(!snake.covers(Position { x: 3, y: 1 }));
}

#[test]
fn place_food_takes_a_free_cell() {
    let mut snake = snake_in(board(12, 12), Direction::East, &[(1, 1), (2, 1)], (3, 1));
    snake.place_food(Some(Position { x: 9, y: 9 }));
    assert_eq!(snake.food_pos(), Some(Position { x: 9, y: 9 }));
    assert_eq!(body_of(&snake), cells(&[(1, 1), (2, 1)]));
}

#[test]
fn place_food_refuses_the_body_and_the_border() {
    let mut snake = snake_in(board(12, 12), Direction::East, &[(1, 1), (2, 1)], (3, 1));
    snake.place_food(Some(Position { x: 2, y: 1 }));
    assert_eq!(snake.food_pos(), None);
    let mut snake = snake_in(board(12, 12), Direction::East, &[(1, 1), (2, 1)], (3, 1));
    snake.place_food(Some(Position { x: 0, y: 5 }));
    assert_eq!(snake.food_pos(), None);
    let mut snake = snake_in(board(12, 12), Direction::East, &[(1, 1), (2, 1)], (3, 1));
    snake.place_food(Some(Position { x: 11, y: 5 }));
    assert_eq!(snake.food_pos(), None);
    let mut snake = snake_in(board(12, 12), Direction::East, &[(1, 1), (2, 1)], (3, 1));
    snake.place_food(None);
    assert_eq!(snake.food_pos(), None);
    assert!(snake.has_won());
}

#[test]
fn update_food_pos_picks_among_the_free_cells() {
    for _ in 0..100 {
        let mut snake = snake_in(board(5, 4), Direction::East, &[(1, 1), (2, 1), (2, 2)], (3, 2));
        snake.update_food_pos();
        let food = snake.food_pos().expect("three cells are free");
        assert!(cells(&[(3, 1), (1, 2), (3, 2)]).contains(&food));
        assert_eq!(body_of(&snake), cells(&[(1, 1), (2, 1), (2, 2)]));
    }
}

#[test]
fn update_food_pos_reaches_every_free_cell() {
    let mut seen = Vec::new();
    for _ in 0..400 {
        let mut snake = snake_in(board(5, 4), Direction::East, &[(1, 1), (2, 1), (2, 2)], (3, 2));
        snake.update_food_pos();
        let food = snake.food_pos().expect("three cells are free");
        if !seen.contains(&food) {
            seen.push(food);
        }
    }
    assert_eq!(seen.len(), 3);
}

#[test]
fn can_step_needs_a_neighbour_on_every_side() {
    assert!(snake_in(board(12, 12), Direction::East, &[(1, 1)], (3, 1)).can_step());
    assert!(!snake_in(board(12, 12), Direction::East, &[(0, 1)], (3, 1)).can_step());
    assert!(!snake_in(board(12, 12), Direction::East, &[(1, 0)], (3, 1)).can_step());
    assert!(!snake_in(board(12, 12), Direction::East, &[(u16::MAX, 1)], (3, 1)).can_step());
    assert!(!snake_in(board(12, 12), Direction::East, &[(1, u16::MAX)], (3, 1)).can_step());
    assert!(snake_in(board(12, 12), Direction::East, &[(0, 0), (1, 1)], (3, 1)).can_step());
}

#[test]
fn body_stays_connected_through_a_game() {
    let requests = [
        Direction::East,
        Direction::South,
        Direction::South,
        Direction::West,
        Direction::North,
        Direction::East,
        Direction::East,
        Direction::North,
        Direction::West,
        Direction::South,
        Direction::East,
        Direction::South,
    ];
    let mut snake = snake_in(board(40, 40), Direction::East, &[(10, 10), (11, 10), (12, 10)], (13, 10));
    for request in requests {
        snake.update_snake_position(request);
        let body = body_of(&snake);
        assert!(!body.is_empty());
        for pair in body.windows(2) {
            let across = pair[0].x.abs_diff(pair[1].x);
            let down = pair[0].y.abs_diff(pair[1].y);
            assert_eq!(across + down, 1);
        }
        let food = snake.food_pos().expect("the board is not full");
        assert!(!body.contains(&food));
    }
    assert!(snake.shape().len() >= 4);
}
