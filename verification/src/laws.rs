//! What holds of the game's rules, proved over the mathematical model.

use crate::grid::{Area, Direction, Position};
use crate::model::{is_step, is_vacant, SnakeState};
use vstd::arithmetic::div_mod::{
    lemma_div_pos_is_pos, lemma_fundamental_div_mod_converse, lemma_mod_bound,
    lemma_multiply_divide_lt,
};
use vstd::prelude::*;

verus! {

/// A request to go on straight or to reverse leaves the heading as it was.
pub proof fn lemma_no_reversal(
    state: SnakeState,
    request: Direction,
    next_food: Option<Position>,
)
    requires
        request == state.heading || request == state.heading.opposite(),
    ensures
        state.next_heading(request) == state.heading,
        state.advanced(request, next_food).heading == state.heading,
{
}

/// A perpendicular request becomes the heading.
pub proof fn lemma_turn_accepted(
    state: SnakeState,
    request: Direction,
    next_food: Option<Position>,
)
    requires
        state.heading.is_perpendicular(request),
    ensures
        state.advanced(request, next_food).heading == request,
{
}

/// A step that reaches the food lengthens the body by the new head and
/// replaces the food; any other step keeps the length and the food, and drops
/// the oldest cell.
pub proof fn lemma_grows_or_shifts(
    state: SnakeState,
    request: Direction,
    next_food: Option<Position>,
)
    requires
        state.body.len() > 0,
    ensures
        state.advanced(request, next_food).head() == state.head().shifted(
            state.next_heading(request),
        ),
        state.eats(request) ==> {
            &&& state.advanced(request, next_food).body.len() == state.body.len() + 1
            &&& state.advanced(request, next_food).body.drop_last() == state.body
            &&& state.advanced(request, next_food).food == next_food
        },
        !state.eats(request) ==> {
            &&& state.advanced(request, next_food).body.len() == state.body.len()
            &&& state.advanced(request, next_food).body.drop_last() == state.body.drop_first()
            &&& state.advanced(request, next_food).food == state.food
        },
{
    let head = state.head().shifted(state.next_heading(request));
    let grown = state.body.push(head);
    assert(grown.drop_last() =~= state.body);
    assert(grown.drop_first().drop_last() =~= state.body.drop_first());
}

/// A step keeps a connected body connected.
pub proof fn lemma_step_keeps_connected(
    state: SnakeState,
    heading: Direction,
    next_food: Option<Position>,
)
    requires
        state.can_move(heading),
        state.is_connected(),
    ensures
        state.moved(heading, next_food).is_connected(),
{
    let head = state.head().shifted(heading);
    let grown = state.body.push(head);
    assert(state.head().is_adjacent(head));
    assert forall|i: int| 0 <= i < grown.len() - 1 implies #[trigger] is_step(grown, i) by {
        if i < state.body.len() - 1 {
            assert(is_step(state.body, i));
        }
    }
    let after = state.moved(heading, next_food).body;
    if state.food != Some(head) {
        assert forall|i: int| 0 <= i < after.len() - 1 implies #[trigger] is_step(after, i) by {
            assert(is_step(grown, i + 1));
        }
    }
}

/// Every state that play reaches from a connected body has a connected body:
/// each cell differs from the next by one unit along exactly one axis.
pub proof fn lemma_play_keeps_connected(
    state: SnakeState,
    requests: Seq<Direction>,
    foods: Seq<Option<Position>>,
)
    requires
        state.body.len() > 0,
        state.is_connected(),
        state.can_play(requests, foods),
    ensures
        state.played(requests, foods).body.len() > 0,
        state.played(requests, foods).is_connected(),
    decreases requests.len(),
{
    if requests.len() > 0 {
        let before = state.played(requests.drop_last(), foods.drop_last());
        lemma_play_keeps_connected(state, requests.drop_last(), foods.drop_last());
        lemma_step_keeps_connected(before, before.next_heading(requests.last()), foods.last());
    }
}

/// A head inside the border has a neighbour in every heading.
pub proof fn lemma_inside_can_step(state: SnakeState)
    requires
        state.body.len() > 0,
        !state.touches_border(),
    ensures
        state.can_step(),
        forall|heading: Direction| state.can_move(heading),
{
}

/// A game in progress stays in order for as long as it is not over: after a
/// tick either the snake has hit something or won, or the board is in order
/// again.
pub proof fn lemma_tick_keeps_running(
    state: SnakeState,
    request: Direction,
    next_food: Option<Position>,
)
    requires
        state.is_running(),
        state.eats(request) ==> state.advanced(request, next_food).food_is_placed(),
        !state.advanced(request, next_food).is_over(),
    ensures
        state.can_advance(request),
        state.advanced(request, next_food).is_running(),
{
    let heading = state.next_heading(request);
    let next = state.advanced(request, next_food);
    let head = state.head().shifted(heading);
    assert(state.area.interior().contains(state.body[state.body.len() - 1]));
    lemma_step_keeps_connected(state, heading, next_food);
    assert(next.head() == head);
    assert forall|i: int| 0 <= i < next.body.len() implies state.area.interior().contains(
        #[trigger] next.body[i],
    ) by {
        if state.eats(request) {
            if i < state.body.len() {
                assert(next.body[i] == state.body[i]);
            }
        } else {
            if i < state.body.len() - 1 {
                assert(next.body[i] == state.body[i + 1]);
            }
        }
    }
    assert forall|i: int, j: int|
        0 <= i < next.body.len() && 0 <= j < next.body.len() && i != j implies next.body[i]
        != next.body[j] by {
        let last = next.body.len() - 1;
        let shift: int = if state.eats(request) { 0 } else { 1 };
        if i == last {
            assert(next.body.drop_last()[j] == next.body[j]);
        } else if j == last {
            assert(next.body.drop_last()[i] == next.body[i]);
        } else {
            assert(next.body[i] == state.body[i + shift]);
            assert(next.body[j] == state.body[j + shift]);
        }
    }
    if !state.eats(request) {
        let cell = state.food.unwrap();
        if next.body.contains(cell) {
            let i = choose|i: int| 0 <= i < next.body.len() && next.body[i] == cell;
            if i < next.body.len() - 1 {
                assert(state.body[i + 1] == cell);
            }
        }
    }
}

/// Food that was placed by the rules misses the body.
pub proof fn lemma_placed_food_is_clear(state: SnakeState)
    requires
        state.food_is_placed(),
    ensures
        state.food_is_clear(),
{
}

/// A step keeps the food off the body, provided that food which moves is
/// placed by the rules.
pub proof fn lemma_step_keeps_food_clear(
    state: SnakeState,
    heading: Direction,
    next_food: Option<Position>,
)
    requires
        state.body.len() > 0,
        state.food_is_clear(),
        state.food == Some(state.head().shifted(heading)) ==> state.moved(
            heading,
            next_food,
        ).food_is_placed(),
    ensures
        state.moved(heading, next_food).food_is_clear(),
{
    let head = state.head().shifted(heading);
    let after = state.moved(heading, next_food).body;
    if state.food != Some(head) {
        if let Some(cell) = state.food {
            if after.contains(cell) {
                let i = choose|i: int| 0 <= i < after.len() && after[i] == cell;
                if i < after.len() - 1 {
                    assert(state.body[i + 1] == cell);
                }
            }
        }
    }
}

/// In a rectangle whose edges have coordinates, the head touches the border
/// exactly where it is not strictly inside: off the columns from one past the
/// left edge to one before the right edge, or off the rows likewise.
pub proof fn lemma_border(state: SnakeState)
    requires
        state.area.x + state.area.width <= u16::MAX,
        state.area.y + state.area.height <= u16::MAX,
    ensures
        state.touches_border() <==> !{
            &&& state.area.x + 1 <= state.head().x <= state.area.x + state.area.width - 2
            &&& state.area.y + 1 <= state.head().y <= state.area.y + state.area.height - 2
        },
{
}

/// A filtered sequence holds the elements of the sequence that pass the test.
pub proof fn lemma_filter_membership<A>(s: Seq<A>, pred: spec_fn(A) -> bool, x: A)
    ensures
        s.filter(pred).contains(x) <==> s.contains(x) && pred(x),
    decreases s.len(),
{
    reveal(Seq::filter);
    if s.len() > 0 {
        let front = s.drop_last();
        lemma_filter_membership(front, pred, x);
        let kept = front.filter(pred);
        if s.contains(x) {
            let i = choose|i: int| 0 <= i < s.len() && s[i] == x;
            if i < s.len() - 1 {
                assert(front[i] == x);
            }
        }
        if front.contains(x) {
            let i = choose|i: int| 0 <= i < front.len() && front[i] == x;
            assert(s[i] == x);
        }
        if pred(s.last()) {
            let out = kept.push(s.last());
            assert(s.filter(pred) == out);
            if kept.contains(x) {
                let i = choose|i: int| 0 <= i < kept.len() && kept[i] == x;
                assert(out[i] == x);
            }
            if out.contains(x) {
                let i = choose|i: int| 0 <= i < out.len() && out[i] == x;
                if i < kept.len() {
                    assert(kept[i] == x);
                } else {
                    assert(s[s.len() - 1] == x);
                }
            }
            if s.last() == x {
                assert(out[out.len() - 1] == x);
                assert(s[s.len() - 1] == x);
            }
        }
    }
}

/// The row-major list of a rectangle holds exactly the cells that lie in it.
pub proof fn lemma_cells_membership(area: Area, cell: Position)
    ensures
        area.cells().contains(cell) <==> area.contains(cell),
{
    let columns = area.columns();
    let rows = area.rows();
    let cells = area.cells();
    if area.contains(cell) {
        let across = cell.x - area.x;
        let down = cell.y - area.y;
        let i = down * columns + across;
        assert(0 <= i < columns * rows) by (nonlinear_arith)
            requires
                0 <= across < columns,
                0 <= down < rows,
                i == down * columns + across,
        ;
        lemma_fundamental_div_mod_converse(i, columns, down, across);
        assert(cells[i] == cell);
    }
    if cells.contains(cell) {
        let i = choose|i: int| 0 <= i < cells.len() && cells[i] == cell;
        assert(columns > 0 && rows > 0) by (nonlinear_arith)
            requires
                0 <= columns,
                0 <= rows,
                0 < columns * rows,
        ;
        lemma_mod_bound(i, columns);
        lemma_div_pos_is_pos(i, columns);
        lemma_multiply_divide_lt(i, columns, rows);
    }
}

/// Food may go to a cell exactly where the list of free cells holds it.
pub proof fn lemma_free_cells_membership(state: SnakeState, cell: Position)
    ensures
        state.free_cells().contains(cell) <==> state.is_free(cell),
{
    lemma_filter_membership(state.area.interior().cells(), is_vacant(state.body), cell);
    lemma_cells_membership(state.area.interior(), cell);
}

} // verus!
