//! The body in compact form: the cell of the tail and the straight segments
//! that lead from it to the head. A trail stands for the same cells as the
//! explicit list, and answers the self-intersection question in one pass over
//! its segments.

use crate::grid::{Direction, Position};
use crate::model::{is_connected, is_step, revisits_head};
use std::collections::VecDeque;
use vstd::prelude::*;

verus! {

/// A straight stretch of the body: a heading and the number of steps taken
/// in it.
#[derive(PartialEq, Eq, Clone, Copy, Debug, Hash, Structural)]
pub struct Segment {
    pub direction: Direction,
    pub length: u16,
}

impl Segment {
    /// The change of the column from the start of the segment to its end.
    pub open spec fn reach_x(self) -> int {
        self.direction.reach_x(self.length as int)
    }

    /// The change of the row from the start of the segment to its end.
    pub open spec fn reach_y(self) -> int {
        self.direction.reach_y(self.length as int)
    }

    /// The cells that the segment adds when it leaves the given cell, in the
    /// order in which they are reached.
    pub open spec fn cells_from(self, from: Position) -> Seq<Position> {
        Seq::new(
            self.length as nat,
            |k: int|
                Position {
                    x: (from.x + self.direction.reach_x(k + 1)) as u16,
                    y: (from.y + self.direction.reach_y(k + 1)) as u16,
                },
        )
    }

    /// Whether the segment, leaving the given cell, passes over a cell before
    /// it ends: the start counts, the end does not.
    pub open spec fn passes(self, from: Position, cell: Position) -> bool {
        match self.direction {
            Direction::East => cell.y == from.y && from.x <= cell.x < from.x + self.length,
            Direction::West => cell.y == from.y && from.x - self.length < cell.x <= from.x,
            Direction::South => cell.x == from.x && from.y <= cell.y < from.y + self.length,
            Direction::North => cell.x == from.x && from.y - self.length < cell.y <= from.y,
        }
    }
}

/// A trail as a mathematical value: the tail and the segments from the tail
/// to the head.
pub struct TrailState {
    pub tail: Position,
    pub segments: Seq<Segment>,
}

impl TrailState {
    /// The column reached after the first `n` segments.
    pub open spec fn x_after(self, n: int) -> int
        decreases n,
    {
        if n <= 0 {
            self.tail.x as int
        } else {
            self.x_after(n - 1) + self.segments[n - 1].reach_x()
        }
    }

    /// The row reached after the first `n` segments.
    pub open spec fn y_after(self, n: int) -> int
        decreases n,
    {
        if n <= 0 {
            self.tail.y as int
        } else {
            self.y_after(n - 1) + self.segments[n - 1].reach_y()
        }
    }

    /// The cell reached after the first `n` segments.
    pub open spec fn cell_after(self, n: int) -> Position {
        Position { x: self.x_after(n) as u16, y: self.y_after(n) as u16 }
    }

    /// Whether the first `n` segments are in order: none is empty, and each
    /// ends on a cell that has coordinates.
    pub open spec fn wf_upto(self, n: int) -> bool
        decreases n,
    {
        n <= 0 || {
            &&& self.wf_upto(n - 1)
            &&& self.segments[n - 1].length >= 1
            &&& 0 <= self.x_after(n) <= u16::MAX
            &&& 0 <= self.y_after(n) <= u16::MAX
        }
    }

    /// Whether the trail is in order.
    pub open spec fn wf(self) -> bool {
        self.wf_upto(self.segments.len() as int)
    }

    /// The cells that the tail and the first `n` segments stand for.
    pub open spec fn cells_upto(self, n: int) -> Seq<Position>
        decreases n,
    {
        if n <= 0 {
            seq![self.tail]
        } else {
            self.cells_upto(n - 1) + self.segments[n - 1].cells_from(self.cell_after(n - 1))
        }
    }

    /// The cells that the trail stands for, from the tail to the head.
    pub open spec fn cells(self) -> Seq<Position> {
        self.cells_upto(self.segments.len() as int)
    }

    /// The head: the cell on which the trail ends.
    pub open spec fn head(self) -> Position {
        self.cell_after(self.segments.len() as int)
    }

    /// Whether the trail turns after the segment at index `j`.
    pub open spec fn turns_after(self, j: int) -> bool {
        self.segments[j].direction != self.segments[j + 1].direction
    }

    /// Whether the segments are as long as they can be: no segment goes on
    /// in the heading of the one before it.
    pub open spec fn is_compact(self) -> bool {
        forall|j: int| 0 <= j < self.segments.len() - 1 ==> #[trigger] self.turns_after(j)
    }

    /// The trail after one more step in the heading of its last segment.
    pub open spec fn extended(self) -> TrailState {
        let last = self.segments.last();
        TrailState {
            tail: self.tail,
            segments: self.segments.update(
                self.segments.len() - 1,
                Segment { direction: last.direction, length: (last.length + 1) as u16 },
            ),
        }
    }

    /// The trail after one step in a new heading.
    pub open spec fn turned(self, direction: Direction) -> TrailState {
        TrailState {
            tail: self.tail,
            segments: self.segments.push(Segment { direction, length: 1 }),
        }
    }

    /// Whether the segment at index `j` passes over the cell before it ends.
    pub open spec fn passes_at(self, j: int, cell: Position) -> bool {
        self.segments[j].passes(self.cell_after(j), cell)
    }

    /// How many columns the end of the segment at index `j` lies to the right
    /// of the head: what the later segments take back.
    pub open spec fn back_x(self, j: int) -> int
        decreases self.segments.len() - j,
    {
        if j >= self.segments.len() - 1 {
            0
        } else {
            self.back_x(j + 1) - self.segments[j + 1].reach_x()
        }
    }

    /// How many rows the end of the segment at index `j` lies below the head.
    pub open spec fn back_y(self, j: int) -> int
        decreases self.segments.len() - j,
    {
        if j >= self.segments.len() - 1 {
            0
        } else {
            self.back_y(j + 1) - self.segments[j + 1].reach_y()
        }
    }

    /// Whether the segment at index `j` passes over the head's cell before it
    /// ends, told from the two distances alone: the distance across the
    /// segment is zero, and the distance along it is at least one step and
    /// at most the segment's length.
    pub open spec fn crosses_at(self, j: int) -> bool {
        let across = self.back_x(j);
        let down = self.back_y(j);
        let length = self.segments[j].length;
        match self.segments[j].direction {
            Direction::East => down == 0 && 1 <= across <= length,
            Direction::West => down == 0 && 1 <= -across <= length,
            Direction::South => across == 0 && 1 <= down <= length,
            Direction::North => across == 0 && 1 <= -down <= length,
        }
    }

    /// Whether some segment passes over the head's cell before the trail
    /// reaches the head.
    pub open spec fn crosses_head(self) -> bool {
        exists|j: int| 0 <= j < self.segments.len() && #[trigger] self.crosses_at(j)
    }
}

/// A body held as a trail, always in order.
pub struct Trail {
    tail: Position,
    segments: Vec<Segment>,
}

impl View for Trail {
    type V = TrailState;

    closed spec fn view(&self) -> TrailState {
        TrailState { tail: self.tail, segments: self.segments@ }
    }
}

impl Trail {
    #[verifier::type_invariant]
    spec fn in_order(self) -> bool {
        self@.wf()
    }

    /// Builds a trail from its tail and segments. Nothing is built where a
    /// segment is empty or ends off the grid.
    pub fn new(tail: Position, segments: Vec<Segment>) -> (trail: Option<Trail>)
        ensures
            trail is Some <==> (TrailState { tail, segments: segments@ }).wf(),
            trail matches Some(built) ==> built@ == (TrailState { tail, segments: segments@ }),
    {
        let ghost whole = TrailState { tail, segments: segments@ };
        let mut x: u16 = tail.x;
        let mut y: u16 = tail.y;
        let mut j: usize = 0;
        while j < segments.len()
            invariant
                j <= segments@.len(),
                whole == (TrailState { tail, segments: segments@ }),
                whole.wf_upto(j as int),
                x == whole.x_after(j as int),
                y == whole.y_after(j as int),
            decreases segments@.len() - j,
        {
            let segment = segments[j];
            proof {
                if whole.wf() {
                    lemma_wf_front(whole, segments@.len() as int, j + 1);
                }
            }
            if segment.length == 0 {
                return None;
            }
            match segment.direction {
                Direction::East => {
                    if segment.length > u16::MAX - x {
                        return None;
                    }
                    x += segment.length;
                },
                Direction::West => {
                    if segment.length > x {
                        return None;
                    }
                    x -= segment.length;
                },
                Direction::South => {
                    if segment.length > u16::MAX - y {
                        return None;
                    }
                    y += segment.length;
                },
                Direction::North => {
                    if segment.length > y {
                        return None;
                    }
                    y -= segment.length;
                },
            }
            j += 1;
        }
        Some(Trail { tail, segments })
    }

    /// Encodes a body given cell by cell. Nothing is built for an empty body
    /// or one in which some cell is not adjacent to the next.
    pub fn from_cells(shape: &VecDeque<Position>) -> (trail: Option<Trail>)
        ensures
            trail is Some <==> shape@.len() > 0 && is_connected(shape@),
            trail matches Some(built) ==> {
                &&& built@.wf()
                &&& built@.is_compact()
                &&& built@.cells() == shape@
            },
    {
        if shape.len() == 0 {
            return None;
        }
        let tail = shape[0];
        let mut segments: Vec<Segment> = Vec::new();
        let mut i: usize = 1;
        assert((TrailState { tail, segments: segments@ }).cells() =~= shape@.take(1));
        while i < shape.len()
            invariant
                1 <= i <= shape@.len(),
                (TrailState { tail, segments: segments@ }).wf(),
                (TrailState { tail, segments: segments@ }).is_compact(),
                (TrailState { tail, segments: segments@ }).cells() == shape@.take(i as int),
                forall|k: int| 0 <= k < i - 1 ==> #[trigger] is_step(shape@, k),
            decreases shape@.len() - i,
        {
            let ghost trail = TrailState { tail, segments: segments@ };
            let prev = shape[i - 1];
            let cell = shape[i];
            let count: usize = segments.len();
            proof {
                lemma_cells_end(trail, count as int);
                assert(shape@.take(i as int).last() == prev);
                assert(shape@.take(i + 1) =~= shape@.take(i as int).push(cell));
            }
            let direction = match prev.heading_to(cell) {
                Some(direction) => direction,
                None => {
                    assert(!is_step(shape@, i - 1));
                    return None;
                },
            };
            assert(is_step(shape@, i - 1));
            if count > 0 && segments[count - 1].direction == direction {
                let last = segments[count - 1];
                proof {
                    lemma_extended(trail);
                }
                segments.set(count - 1, Segment { direction, length: last.length + 1 });
            } else {
                proof {
                    lemma_turned(trail, direction);
                }
                segments.push(Segment { direction, length: 1 });
            }
            i += 1;
        }
        assert(shape@.take(i as int) =~= shape@);
        Some(Trail { tail, segments })
    }

    /// The cell of the tail.
    pub fn tail(&self) -> (tail: Position)
        ensures
            tail == self@.tail,
    {
        self.tail
    }

    /// The segments, from the tail to the head.
    pub fn segments(&self) -> (segments: &Vec<Segment>)
        ensures
            segments@ == self@.segments,
            self@.wf(),
    {
        proof {
            use_type_invariant(self);
        }
        &self.segments
    }

    /// The cell of the head.
    pub fn head(&self) -> (head: Position)
        ensures
            head == self@.head(),
    {
        proof {
            use_type_invariant(self);
        }
        let mut at = self.tail;
        let mut j: usize = 0;
        while j < self.segments.len()
            invariant
                j <= self.segments@.len(),
                self@.wf(),
                at == self@.cell_after(j as int),
                at.x == self@.x_after(j as int),
                at.y == self@.y_after(j as int),
            decreases self.segments@.len() - j,
        {
            let segment = self.segments[j];
            proof {
                lemma_wf_front(self@, self.segments@.len() as int, j + 1);
            }
            match segment.direction {
                Direction::East => {
                    at.x += segment.length;
                },
                Direction::West => {
                    at.x -= segment.length;
                },
                Direction::South => {
                    at.y += segment.length;
                },
                Direction::North => {
                    at.y -= segment.length;
                },
            }
            j += 1;
        }
        at
    }

    /// The cells that the trail stands for, from the tail to the head.
    pub fn cells(&self) -> (cells: Vec<Position>)
        ensures
            cells@ == self@.cells(),
    {
        proof {
            use_type_invariant(self);
        }
        let mut cells: Vec<Position> = Vec::new();
        cells.push(self.tail);
        let mut at = self.tail;
        let mut j: usize = 0;
        assert(cells@ =~= self@.cells_upto(0));
        while j < self.segments.len()
            invariant
                j <= self.segments@.len(),
                self@.wf(),
                cells@ == self@.cells_upto(j as int),
                at == self@.cell_after(j as int),
                at.x == self@.x_after(j as int),
                at.y == self@.y_after(j as int),
            decreases self.segments@.len() - j,
        {
            let segment = self.segments[j];
            let ghost from = at;
            let ghost early = cells@;
            proof {
                lemma_wf_front(self@, self.segments@.len() as int, j + 1);
            }
            let mut k: u16 = 0;
            while k < segment.length
                invariant
                    k <= segment.length,
                    0 <= from.x + segment.reach_x() <= u16::MAX,
                    0 <= from.y + segment.reach_y() <= u16::MAX,
                    at.x == from.x + segment.direction.reach_x(k as int),
                    at.y == from.y + segment.direction.reach_y(k as int),
                    cells@ == early + segment.cells_from(from).take(k as int),
                decreases segment.length - k,
            {
                at.shift(segment.direction);
                cells.push(at);
                proof {
                    let added = segment.cells_from(from);
                    assert(added.take(k + 1) =~= added.take(k as int).push(added[k as int]));
                    assert(cells@ =~= early + added.take(k + 1));
                }
                k += 1;
            }
            proof {
                let added = segment.cells_from(from);
                assert(added.take(k as int) =~= added);
            }
            j += 1;
        }
        cells
    }

    /// Whether the head lies on another cell of the body. One pass over the
    /// segments from the head back to the tail keeps, per axis, the distance
    /// from the head to the end of the segment at hand; a segment crosses the
    /// head where the distance across it is zero and the distance along it is
    /// within its length.
    pub fn has_self_intersection(&self) -> (hit: bool)
        ensures
            hit == self@.crosses_head(),
            hit == revisits_head(self@.cells()),
    {
        proof {
            use_type_invariant(self);
            lemma_encodings_agree(self@, self@.cells());
        }
        let mut across: i32 = 0;
        let mut down: i32 = 0;
        let mut j: usize = self.segments.len();
        while j > 0
            invariant
                j <= self.segments@.len(),
                self@.wf(),
                self@.crosses_head() == revisits_head(self@.cells()),
                across == self@.back_x(j - 1),
                down == self@.back_y(j - 1),
                forall|i: int| j <= i < self.segments@.len() ==> !#[trigger] self@.crosses_at(i),
            decreases j,
        {
            proof {
                let count = self.segments@.len() as int;
                lemma_back_distance(self@, j - 1);
                lemma_back_distance(self@, j - 2);
                lemma_wf_front(self@, count, count);
                lemma_wf_front(self@, count, j as int);
                lemma_wf_front(self@, count, j - 1);
            }
            j -= 1;
            let segment = self.segments[j];
            let length: i32 = segment.length as i32;
            let crossed = match segment.direction {
                Direction::East => down == 0 && 1 <= across && across <= length,
                Direction::West => down == 0 && 1 <= -across && -across <= length,
                Direction::South => across == 0 && 1 <= down && down <= length,
                Direction::North => across == 0 && 1 <= -down && -down <= length,
            };
            if crossed {
                assert(self@.crosses_at(j as int));
                return true;
            }
            match segment.direction {
                Direction::East => {
                    across -= length;
                },
                Direction::West => {
                    across += length;
                },
                Direction::South => {
                    down -= length;
                },
                Direction::North => {
                    down += length;
                },
            }
        }
        false
    }
}

/// Where the first segments are in order, so are fewer of them, and the cell
/// they reach has coordinates.
pub proof fn lemma_wf_front(trail: TrailState, n: int, m: int)
    requires
        trail.wf_upto(n),
        0 <= m <= n,
    ensures
        trail.wf_upto(m),
        0 <= trail.x_after(m) <= u16::MAX,
        0 <= trail.y_after(m) <= u16::MAX,
        m > 0 ==> trail.segments[m - 1].length >= 1,
    decreases n,
{
    if m < n {
        lemma_wf_front(trail, n - 1, m);
    }
}

/// Two trails with the same tail and the same first `n` segments agree on
/// everything that these decide.
pub proof fn lemma_same_front(a: TrailState, b: TrailState, n: int)
    requires
        a.tail == b.tail,
        n <= a.segments.len(),
        n <= b.segments.len(),
        forall|i: int| 0 <= i < n ==> a.segments[i] == b.segments[i],
    ensures
        a.x_after(n) == b.x_after(n),
        a.y_after(n) == b.y_after(n),
        a.wf_upto(n) == b.wf_upto(n),
        a.cells_upto(n) == b.cells_upto(n),
    decreases n,
{
    if n > 0 {
        lemma_same_front(a, b, n - 1);
    }
}

/// The cells of the first segments end with the cell that these reach.
pub proof fn lemma_cells_end(trail: TrailState, n: int)
    requires
        trail.wf_upto(n),
        0 <= n,
    ensures
        trail.cells_upto(n).len() >= 1,
        trail.cells_upto(n).last() == trail.cell_after(n),
    decreases n,
{
    if n > 0 {
        lemma_cells_end(trail, n - 1);
        lemma_wf_front(trail, n, n - 1);
    }
}

/// A cell lies among the cells of the first segments, the last one left
/// out, exactly where one of these segments passes over it before that
/// segment ends.
pub proof fn lemma_trail_membership(trail: TrailState, n: int, cell: Position)
    requires
        trail.wf_upto(n),
        0 <= n,
    ensures
        trail.cells_upto(n).drop_last().contains(cell) <==> exists|j: int|
            0 <= j < n && #[trigger] trail.passes_at(j, cell),
    decreases n,
{
    if n > 0 {
        lemma_wf_front(trail, n, n - 1);
        lemma_cells_end(trail, n - 1);
        lemma_trail_membership(trail, n - 1, cell);
        let last = trail.segments[n - 1];
        let from = trail.cell_after(n - 1);
        let early = trail.cells_upto(n - 1);
        let added = last.cells_from(from);
        let all = trail.cells_upto(n).drop_last();
        assert(all =~= early + added.drop_last());
        if all.contains(cell) {
            let i = choose|i: int| 0 <= i < all.len() && all[i] == cell;
            if i < early.len() - 1 {
                assert(early.drop_last()[i] == cell);
                let j = choose|j: int| 0 <= j < n - 1 && #[trigger] trail.passes_at(j, cell);
                assert(trail.passes_at(j, cell));
            } else {
                assert(trail.passes_at(n - 1, cell));
            }
        }
        if exists|j: int| 0 <= j < n && #[trigger] trail.passes_at(j, cell) {
            let j = choose|j: int| 0 <= j < n && #[trigger] trail.passes_at(j, cell);
            if j < n - 1 {
                let i = choose|i: int|
                    0 <= i < early.drop_last().len() && early.drop_last()[i] == cell;
                assert(all[i] == cell);
            } else if cell == from {
                assert(all[early.len() - 1] == cell);
            } else {
                let k = match last.direction {
                    Direction::East => cell.x - from.x - 1,
                    Direction::West => from.x - cell.x - 1,
                    Direction::South => cell.y - from.y - 1,
                    Direction::North => from.y - cell.y - 1,
                };
                assert(added[k] == cell);
                assert(all[early.len() + k] == cell);
            }
        }
    }
}

/// The end of each segment lies from the trail's end as far as the two
/// distances say.
pub proof fn lemma_back_distance(trail: TrailState, j: int)
    requires
        -1 <= j < trail.segments.len(),
    ensures
        trail.x_after(j + 1) == trail.x_after(trail.segments.len() as int) + trail.back_x(j),
        trail.y_after(j + 1) == trail.y_after(trail.segments.len() as int) + trail.back_y(j),
    decreases trail.segments.len() - j,
{
    if j < trail.segments.len() - 1 {
        lemma_back_distance(trail, j + 1);
    }
}

/// A segment passes over the head's cell exactly where the two distances say
/// so.
pub proof fn lemma_crossing(trail: TrailState, j: int)
    requires
        trail.wf(),
        0 <= j < trail.segments.len(),
    ensures
        trail.passes_at(j, trail.head()) == trail.crosses_at(j),
{
    let count = trail.segments.len() as int;
    lemma_back_distance(trail, j);
    lemma_wf_front(trail, count, count);
    lemma_wf_front(trail, count, j);
    lemma_wf_front(trail, count, j + 1);
}

/// The two forms of a body agree on self-intersection: a trail's segments
/// cross the head exactly where the head lies on another cell of the explicit
/// list.
pub proof fn lemma_encodings_agree(trail: TrailState, body: Seq<Position>)
    requires
        trail.wf(),
        trail.cells() == body,
    ensures
        trail.crosses_head() == revisits_head(body),
{
    let count = trail.segments.len() as int;
    lemma_cells_end(trail, count);
    lemma_trail_membership(trail, count, trail.head());
    assert forall|j: int| 0 <= j < count implies trail.passes_at(j, trail.head())
        == #[trigger] trail.crosses_at(j) by {
        lemma_crossing(trail, j);
    }
    if trail.crosses_head() {
        let j = choose|j: int| 0 <= j < count && #[trigger] trail.crosses_at(j);
        assert(trail.passes_at(j, trail.head()));
    }
    if revisits_head(body) {
        let j = choose|j: int| 0 <= j < count && #[trigger] trail.passes_at(j, trail.head());
        assert(trail.crosses_at(j));
    }
}

/// One more step in the heading of the last segment lengthens that segment
/// and adds the cell reached.
pub proof fn lemma_extended(trail: TrailState)
    requires
        trail.wf(),
        trail.segments.len() > 0,
        trail.head().can_shift(trail.segments.last().direction),
    ensures
        trail.segments.last().length < u16::MAX,
        trail.extended().wf(),
        trail.is_compact() ==> trail.extended().is_compact(),
        trail.extended().cells() == trail.cells().push(
            trail.head().shifted(trail.segments.last().direction),
        ),
{
    let count = trail.segments.len() as int;
    let last = trail.segments.last();
    let cell = trail.head().shifted(last.direction);
    let grown = trail.extended();
    let longer = grown.segments[count - 1];
    let from = trail.cell_after(count - 1);
    lemma_wf_front(trail, count, count - 1);
    lemma_same_front(trail, grown, count - 1);
    assert(longer.cells_from(from) =~= last.cells_from(from).push(cell));
    assert(grown.cells() =~= trail.cells().push(cell));
    if trail.is_compact() {
        assert forall|j: int| 0 <= j < count - 1 implies #[trigger] grown.turns_after(j) by {
            assert(trail.turns_after(j));
        }
    }
}

/// One step in a new heading adds a segment of one step and the cell reached.
pub proof fn lemma_turned(trail: TrailState, direction: Direction)
    requires
        trail.wf(),
        trail.head().can_shift(direction),
    ensures
        trail.turned(direction).wf(),
        trail.is_compact() && (trail.segments.len() > 0 ==> trail.segments.last().direction
            != direction) ==> trail.turned(direction).is_compact(),
        trail.turned(direction).cells() == trail.cells().push(trail.head().shifted(direction)),
{
    let count = trail.segments.len() as int;
    let cell = trail.head().shifted(direction);
    let grown = trail.turned(direction);
    let fresh = Segment { direction, length: 1 };
    lemma_wf_front(trail, count, count);
    lemma_same_front(trail, grown, count);
    assert(fresh.cells_from(trail.head()) =~= seq![cell]);
    assert(grown.cells() =~= trail.cells().push(cell));
    if trail.is_compact() && (count > 0 ==> trail.segments.last().direction != direction) {
        assert forall|j: int| 0 <= j < count implies #[trigger] grown.turns_after(j) by {
            if j < count - 1 {
                assert(trail.turns_after(j));
            }
        }
    }
}

} // verus!
