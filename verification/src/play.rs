//! The screen on which the game is played: a snake that creeps over the
//! board, eats fruit, grows, and loses a life when it runs into the border
//! or into itself.

use vstd::prelude::*;
use crate::consts::{BOARD_HEIGHT, BOARD_WIDTH};
use crate::random::random_between;
use crate::state::StateResult;
use crate::term::{decode, put, put_text, screen_sized, InputEvent, Terminal, TerminalView};
use crate::text::{decimal, decimal_text, lemma_decimal_width};
use crate::types::Point;

verus! {

/// Column of the tail of a snake that was just set on the board.
pub const START_COLUMN: i32 = 5;

/// Row of a snake that was just set on the board.
pub const START_ROW: i32 = 10;

/// Cells of a snake that was just set on the board.
pub const START_LENGTH: i32 = 5;

/// Column of the fruit that lies on a board that was just set up.
pub const FRUIT_COLUMN: i32 = 30;

/// Row of the fruit that lies on a board that was just set up.
pub const FRUIT_ROW: i32 = 20;

/// Lives at the start of a round.
pub const LIVES: i32 = 3;

/// Cells by which the snake grows for each fruit.
pub const GROWTH: i32 = 3;

/// Column in which the score is written.
pub const SCORE_COLUMN: i32 = 40;

/// What a cell of the snake looks like.
pub const BODY_MARK: char = '#';

/// What a fruit looks like.
pub const FRUIT_MARK: char = '*';

/// The cell lies on the board, the score line included.
pub open spec fn on_board(p: Point) -> bool {
    0 <= p.x < BOARD_WIDTH && 0 <= p.y < BOARD_HEIGHT
}

/// The snake may not go to this cell: it lies beyond the border of the
/// board or in the topmost row, where the score is shown.
pub open spec fn off_field(p: Point) -> bool {
    p.x < 0 || p.y < 1 || p.x >= BOARD_WIDTH || p.y >= BOARD_HEIGHT
}

/// The snake as it is set on the board: a horizontal run of cells, tail
/// first, head last.
pub open spec fn start_body() -> Seq<Point> {
    Seq::new(START_LENGTH as nat, |i: int| Point { x: (START_COLUMN + i) as i32, y: START_ROW })
}

/// The fruit that lies on a board that was just set up.
pub open spec fn start_fruit() -> Point {
    Point { x: FRUIT_COLUMN, y: FRUIT_ROW }
}

/// The direction an event asks for, if it asks for one.
pub open spec fn heading(event: InputEvent) -> Option<Point> {
    match event {
        InputEvent::Up => Some(Point::up()),
        InputEvent::Down => Some(Point::down()),
        InputEvent::Left => Some(Point::left()),
        InputEvent::Right => Some(Point::right()),
        _ => None,
    }
}

/// The direction the player wishes for after a run of events: the one the
/// last event with a direction asks for, or the current one if there is no
/// such event.
pub open spec fn wished(events: Seq<InputEvent>, current: Point) -> Point
    decreases events.len(),
{
    if events.len() == 0 {
        current
    } else {
        match heading(events.last()) {
            Some(direction) => direction,
            None => wished(events.drop_last(), current),
        }
    }
}

/// The direction the snake takes when the player wishes for `wish`: the
/// wish, unless it is the current direction or its reverse.
pub open spec fn turned(current: Point, wish: Point) -> Point {
    if wish != current && wish != current.reversed() {
        wish
    } else {
        current
    }
}

/// The cells of `cells` other than `p`, in their order.
pub open spec fn without(cells: Seq<Point>, p: Point) -> Seq<Point> {
    cells.filter(|c: Point| c != p)
}

/// The grid with `mark` in each of `cells`.
pub open spec fn plotted(grid: Seq<Seq<char>>, cells: Seq<Point>, mark: char) -> Seq<Seq<char>> {
    Seq::new(
        grid.len(),
        |y: int|
            Seq::new(
                grid[y].len(),
                |x: int|
                    if cells.contains(Point { x: x as i32, y: y as i32 }) {
                        mark
                    } else {
                        grid[y][x]
                    },
            ),
    )
}

/// The text that tells how many lives are left.
pub open spec fn lives_text(lives: int) -> Seq<char> {
    "LIVES:"@ + decimal(lives as nat)
}

/// The text that tells the score.
pub open spec fn score_text(score: int) -> Seq<char> {
    "SCORE:"@ + decimal(score as nat)
}

/// The grid with the lives and the score written into its topmost row.
pub open spec fn with_hud(grid: Seq<Seq<char>>, lives: int, score: int) -> Seq<Seq<char>> {
    put_text(put_text(grid, 0, 0, lives_text(lives)), SCORE_COLUMN as int, 0, score_text(score))
}

/// A round of the game as a value.
pub struct PlayView {
    pub score: int,
    pub lives: int,
    /// Cells the snake has still to grow by.
    pub extend: int,
    pub direction: Point,
    /// The cells of the snake, tail first, head last.
    pub body: Seq<Point>,
    pub fruits: Seq<Point>,
}

impl PlayView {
    /// The round before its board was set up for the first time.
    pub open spec fn fresh() -> PlayView {
        PlayView {
            score: 0,
            lives: LIVES as int,
            extend: 0,
            direction: Point::right(),
            body: Seq::empty(),
            fruits: Seq::empty(),
        }
    }

    /// What holds of a round at all times: the snake heads in one of the
    /// four directions, lies on the field and crosses itself nowhere, the
    /// fruits lie on the board, and the counters are in their ranges.
    pub open spec fn wf(self) -> bool {
        &&& self.direction.is_direction()
        &&& 0 <= self.lives <= LIVES
        &&& 0 <= self.score
        &&& 0 <= self.extend
        &&& forall|i: int| 0 <= i < self.body.len() ==> !off_field(#[trigger] self.body[i])
        &&& self.body.no_duplicates()
        &&& forall|i: int| 0 <= i < self.fruits.len() ==> on_board(#[trigger] self.fruits[i])
    }

    /// The round can go on for another tick: a life is left, and the snake
    /// still has a head after it has drawn in its tail.
    pub open spec fn alive(self) -> bool {
        &&& self.wf()
        &&& self.lives >= 1
        &&& self.body.len() >= 1
        &&& (self.extend > 0 || self.body.len() >= 2)
    }

    /// The counters can take whatever a tick may add to them.
    pub open spec fn has_room(self) -> bool {
        &&& self.score + self.fruits.len() <= i32::MAX
        &&& self.extend + GROWTH * self.fruits.len() <= i32::MAX
    }

    /// The round with the board set up anew.
    pub open spec fn reset(self) -> PlayView {
        PlayView {
            direction: Point::right(),
            body: start_body(),
            fruits: seq![start_fruit()],
            ..self
        }
    }

    /// The round as it starts.
    pub open spec fn started(self) -> PlayView {
        PlayView { lives: LIVES as int, score: 0, extend: 0, ..self.reset() }
    }

    /// The round after the snake died: the board is set up anew and a life
    /// is gone.
    pub open spec fn dead(self) -> PlayView {
        PlayView { lives: self.lives - 1, ..self.reset() }
    }

    /// The round after the player's wish for a direction was heard.
    pub open spec fn steered(self, events: Seq<InputEvent>) -> PlayView {
        PlayView { direction: turned(self.direction, wished(events, self.direction)), ..self }
    }

    /// The round after the snake made room for its next step: it uses up
    /// one cell of pending growth, or else draws in its tail.
    pub open spec fn crept(self) -> PlayView {
        if self.extend > 0 {
            PlayView { extend: self.extend - 1, ..self }
        } else {
            PlayView { body: self.body.drop_first(), ..self }
        }
    }

    /// The cell the head goes to in the next tick.
    pub open spec fn next_head(self) -> Point {
        self.crept().body.last().plus(self.direction)
    }

    /// The next step kills the snake: the head would leave the field or
    /// run into the body.
    pub open spec fn collides(self) -> bool {
        off_field(self.next_head()) || self.crept().body.contains(self.next_head())
    }

    /// How many fruits lie in cell `p`.
    pub open spec fn fruits_at(self, p: Point) -> int {
        self.fruits.len() - without(self.fruits, p).len()
    }

    /// The round after the snake ate what lay in cell `p`: each fruit there
    /// is gone and has added to the score and to the pending growth; if no
    /// fruit is left, one lies in cell `spawn`.
    pub open spec fn fed(self, p: Point, spawn: Point) -> PlayView {
        let left = without(self.fruits, p);
        PlayView {
            score: self.score + self.fruits_at(p),
            extend: self.extend + GROWTH * self.fruits_at(p),
            fruits: if left.len() == 0 {
                seq![spawn]
            } else {
                left
            },
            ..self
        }
    }

    /// The round one tick later, where `spawn` is the cell in which a new
    /// fruit appears should the last one be eaten.
    pub open spec fn advanced(self, spawn: Point) -> PlayView {
        if self.collides() {
            self.crept().dead()
        } else {
            let fed = self.crept().fed(self.next_head(), spawn);
            PlayView { body: fed.body.push(self.next_head()), ..fed }
        }
    }

    /// The round with one more fruit, in `cell`.
    pub open spec fn with_fruit(self, cell: Point) -> PlayView {
        PlayView { fruits: self.fruits.push(cell), ..self }
    }

    /// `after` is this round with one more fruit somewhere on the board.
    pub open spec fn spawns_to(self, after: PlayView) -> bool {
        exists|cell: Point| on_board(cell) && after == #[trigger] self.with_fruit(cell)
    }

    /// `after` is this round once the snake ate what lay in `p`, wherever on
    /// the board a new fruit appeared if one was due.
    pub open spec fn feeds_to(self, p: Point, after: PlayView) -> bool {
        exists|spawn: Point| on_board(spawn) && after == #[trigger] self.fed(p, spawn)
    }

    /// `after` is this round one tick later, wherever on the board a new
    /// fruit appeared if one was due.
    pub open spec fn advances_to(self, after: PlayView) -> bool {
        exists|spawn: Point| on_board(spawn) && after == #[trigger] self.advanced(spawn)
    }

    /// The round after a tick in which the player's keys gave `events`: a
    /// request to leave freezes it, otherwise the snake turns and moves.
    pub open spec fn ticked(self, events: Seq<InputEvent>, spawn: Point) -> PlayView {
        if events.contains(InputEvent::Quit) {
            self
        } else {
            self.steered(events).advanced(spawn)
        }
    }

    /// What the round reports after a tick in which the player's keys gave
    /// `events`.
    pub open spec fn verdict(self, events: Seq<InputEvent>, spawn: Point) -> StateResult {
        if events.contains(InputEvent::Quit) {
            StateResult::Exit
        } else {
            self.ticked(events, spawn).signal()
        }
    }

    /// `after` and `result` are this round and its report after a tick in
    /// which the player's keys gave `events`, wherever on the board a new
    /// fruit appeared if one was due.
    pub open spec fn ticks_to(
        self,
        events: Seq<InputEvent>,
        after: PlayView,
        result: StateResult,
    ) -> bool {
        exists|spawn: Point|
            on_board(spawn) && after == #[trigger] self.ticked(events, spawn) && result
                == self.verdict(events, spawn)
    }

    /// The grid with the snake and then the fruits drawn into it.
    pub open spec fn field_on(self, grid: Seq<Seq<char>>) -> Seq<Seq<char>> {
        plotted(plotted(grid, self.body, BODY_MARK), self.fruits, FRUIT_MARK)
    }

    /// The grid with the whole screen of the round drawn into it: the
    /// snake, the fruits, and over them the lives and the score.
    pub open spec fn drawn_on(self, grid: Seq<Seq<char>>) -> Seq<Seq<char>> {
        with_hud(self.field_on(grid), self.lives, self.score)
    }

    /// What the round reports at the end of a tick.
    pub open spec fn signal(self) -> StateResult {
        if self.lives == 0 {
            StateResult::Complete
        } else {
            StateResult::Continue
        }
    }
}

pub struct GamePlay {
    score: i32,
    body: Vec<Point>,
    fruits: Vec<Point>,
    extend: i32,
    direction: Point,
    lives: i32,
}

impl View for GamePlay {
    type V = PlayView;

    closed spec fn view(&self) -> PlayView {
        PlayView {
            score: self.score as int,
            lives: self.lives as int,
            extend: self.extend as int,
            direction: self.direction,
            body: self.body@,
            fruits: self.fruits@,
        }
    }
}

impl GamePlay {
    pub open spec fn wf(&self) -> bool {
        self@.wf()
    }

    pub open spec fn alive(&self) -> bool {
        self@.alive()
    }

    pub open spec fn has_room(&self) -> bool {
        self@.has_room()
    }

    /// A round whose board is still to be set up.
    pub fn new() -> (play: GamePlay)
        ensures
            play@ == PlayView::fresh(),
            play.wf(),
    {
        GamePlay {
            score: 0,
            extend: 0,
            fruits: Vec::new(),
            body: Vec::new(),
            direction: Point::right(),
            lives: LIVES,
        }
    }

    pub fn score(&self) -> (score: i32)
        ensures
            score == self@.score,
    {
        self.score
    }

    pub fn lives(&self) -> (lives: i32)
        ensures
            lives == self@.lives,
    {
        self.lives
    }

    /// Cells the snake has still to grow by.
    pub fn extend(&self) -> (extend: i32)
        ensures
            extend == self@.extend,
    {
        self.extend
    }

    pub fn direction(&self) -> (direction: Point)
        ensures
            direction == self@.direction,
    {
        self.direction
    }

    /// The cells of the snake, tail first, head last.
    pub fn body(&self) -> (body: &Vec<Point>)
        ensures
            body@ == self@.body,
    {
        &self.body
    }

    pub fn fruits(&self) -> (fruits: &Vec<Point>)
        ensures
            fruits@ == self@.fruits,
    {
        &self.fruits
    }

    /// Whether the round can go on for another tick.
    pub fn check_alive(&self) -> (alive: bool)
        requires
            self.wf(),
        ensures
            alive == self.alive(),
    {
        self.lives >= 1 && self.body.len() >= 1 && (self.extend > 0 || self.body.len() >= 2)
    }

    /// Whether the counters can take whatever a tick may add to them.
    pub fn check_room(&self) -> (room: bool)
        requires
            self.wf(),
        ensures
            room == self.has_room(),
    {
        let fruits = self.fruits.len();
        if fruits > 0x7fff_ffff {
            return false;
        }
        let fruits = fruits as i64;
        self.score as i64 + fruits <= 0x7fff_ffff && self.extend as i64 + 3 * fruits
            <= 0x7fff_ffff
    }

    /// Whether the snake may not go to `point`.
    pub fn out_of_bounds(&self, point: Point) -> (out: bool)
        ensures
            out == off_field(point),
    {
        point.x < 0 || point.y < 1 || point.x >= BOARD_WIDTH as i32 || point.y
            >= BOARD_HEIGHT as i32
    }

    /// Whether `head` is a cell of the snake.
    pub fn ate_itself(&self, head: Point) -> (hit: bool)
        ensures
            hit == self@.body.contains(head),
    {
        let mut i: usize = 0;
        while i < self.body.len()
            invariant
                i <= self.body@.len(),
                forall|j: int| 0 <= j < i ==> self.body@[j] != head,
            decreases self.body@.len() - i,
        {
            if self.body[i].eq(head) {
                return true;
            }
            i += 1;
        }
        false
    }

    /// Sets the board up anew: the snake in its starting place, heading
    /// right, and one fruit in its starting place.
    pub fn reset(&mut self)
        ensures
            final(self)@ == old(self)@.reset(),
    {
        self.direction = Point::right();
        self.body.clear();
        let mut i: i32 = 0;
        while i < START_LENGTH
            invariant
                0 <= i <= START_LENGTH,
                self.body@.len() == i,
                forall|j: int| 0 <= j < i ==> #[trigger] self.body@[j] == start_body()[j],
                self.direction == Point::right(),
                self.score == old(self).score,
                self.lives == old(self).lives,
                self.extend == old(self).extend,
            decreases START_LENGTH - i,
        {
            self.body.push(Point { x: START_COLUMN + i, y: START_ROW });
            i += 1;
        }
        self.fruits.clear();
        self.fruits.push(Point { x: FRUIT_COLUMN, y: FRUIT_ROW });
        assert(self.body@ =~= start_body());
        assert(self.fruits@ =~= seq![start_fruit()]);
    }

    /// The snake dies: the board is set up anew and a life is gone.
    pub fn die(&mut self)
        requires
            old(self)@.lives > i32::MIN,
        ensures
            final(self)@ == old(self)@.dead(),
    {
        self.reset();
        self.lives -= 1;
    }

    /// Reads the keys pressed since the last tick. A request to leave ends
    /// the tick at once and changes nothing. Otherwise the snake turns to
    /// where the last key with a direction points, unless that is where it
    /// heads already or the opposite.
    pub fn handle_events(&mut self, terminal: &mut Terminal) -> (result: StateResult)
        requires
            old(self).wf(),
        ensures
            final(self).wf(),
            final(terminal)@ == (TerminalView { pending: Seq::empty(), ..old(terminal)@ }),
            decode(old(terminal)@.pending).contains(InputEvent::Quit) ==> result
                == StateResult::Exit && final(self)@ == old(self)@,
            !decode(old(terminal)@.pending).contains(InputEvent::Quit) ==> result
                == StateResult::Continue && final(self)@ == old(self)@.steered(
                decode(old(terminal)@.pending),
            ),
    {
        let events = terminal.events();
        let mut new_direction = self.direction;
        let mut i: usize = 0;
        while i < events.len()
            invariant
                i <= events@.len(),
                *self == *old(self),
                old(self).wf(),
                events@ == decode(old(terminal)@.pending),
                terminal@ == (TerminalView { pending: Seq::empty(), ..old(terminal)@ }),
                !events@.take(i as int).contains(InputEvent::Quit),
                new_direction == wished(events@.take(i as int), self.direction),
                new_direction.is_direction(),
            decreases events@.len() - i,
        {
            proof {
                let seen = events@.take(i + 1);
                assert(seen.drop_last() == events@.take(i as int));
                assert(seen.last() == events@[i as int]);
                assert forall|j: int| 0 <= j < seen.len() - 1 implies seen[j]
                    != InputEvent::Quit by {
                    assert(events@.take(i as int)[j] == seen[j]);
                }
            }
            match events[i] {
                InputEvent::Quit => {
                    assert(events@[i as int] == InputEvent::Quit);
                    return StateResult::Exit;
                },
                InputEvent::Up => {
                    new_direction = Point::up();
                },
                InputEvent::Down => {
                    new_direction = Point::down();
                },
                InputEvent::Left => {
                    new_direction = Point::left();
                },
                InputEvent::Right => {
                    new_direction = Point::right();
                },
                _ => {},
            }
            i += 1;
        }
        assert(events@.take(i as int) == events@);
        if !new_direction.eq(self.direction) && !new_direction.eq(self.direction.reverse()) {
            self.direction = new_direction;
        }
        assert(self@.body == old(self)@.body && self@.fruits == old(self)@.fruits);
        StateResult::Continue
    }

    /// Takes the fruits in `point` off the board and counts each of them
    /// towards the score and the pending growth.
    fn swallow(&mut self, point: Point)
        requires
            old(self).wf(),
            old(self).has_room(),
        ensures
            final(self)@ == (PlayView {
                score: old(self)@.score + old(self)@.fruits_at(point),
                extend: old(self)@.extend + GROWTH * old(self)@.fruits_at(point),
                fruits: without(old(self)@.fruits, point),
                ..old(self)@
            }),
    {
        let mut changed: i32 = 0;
        let mut kept: Vec<Point> = Vec::new();
        let mut i: usize = 0;
        assert(self.fruits@.take(0) =~= Seq::<Point>::empty());
        assert(without(Seq::<Point>::empty(), point) =~= Seq::<Point>::empty()) by {
            reveal(Seq::filter);
        }
        while i < self.fruits.len()
            invariant
                i <= self.fruits@.len() <= i32::MAX,
                *self == *old(self),
                kept@ == without(self.fruits@.take(i as int), point),
                changed == i - kept@.len(),
                0 <= changed,
            decreases self.fruits@.len() - i,
        {
            let fruit = self.fruits[i];
            proof {
                let seen = self.fruits@.take(i + 1);
                assert(seen.drop_last() == self.fruits@.take(i as int));
                assert(seen.last() == fruit);
                reveal(Seq::filter);
            }
            if fruit.eq(point) {
                changed += 1;
            } else {
                kept.push(fruit);
            }
            i += 1;
        }
        assert(self.fruits@.take(i as int) == self.fruits@);
        self.fruits = kept;
        self.score += changed;
        self.extend += GROWTH * changed;
    }

    /// The snake eats what lies in `point`; should no fruit be left, a new
    /// one appears in `spawn`.
    pub fn check_ate_with(&mut self, point: Point, spawn: Point)
        requires
            old(self).wf(),
            old(self).has_room(),
            on_board(spawn),
        ensures
            final(self).wf(),
            final(self)@ == old(self)@.fed(point, spawn),
    {
        self.swallow(point);
        if self.fruits.len() == 0 {
            self.fruits.push(spawn);
            assert(self.fruits@ =~= seq![spawn]);
        }
        proof {
            lemma_fed_wf(old(self)@, point, spawn);
        }
    }

    /// The snake eats what lies in `point`; should no fruit be left, a new
    /// one appears somewhere on the board.
    pub fn check_ate(&mut self, point: Point)
        requires
            old(self).wf(),
            old(self).has_room(),
        ensures
            final(self).wf(),
            old(self)@.feeds_to(point, final(self)@),
    {
        self.swallow(point);
        let ghost eaten = self@;
        let ghost spawn = start_fruit();
        if self.fruits.len() == 0 {
            self.make_fruits();
            proof {
                spawn = choose|cell: Point| on_board(cell) && self@ == eaten.with_fruit(cell);
                assert(self@.fruits =~= seq![spawn]);
            }
        }
        proof {
            assert(self@ == old(self)@.fed(point, spawn));
            lemma_fed_wf(old(self)@, point, spawn);
        }
    }

    /// Puts one more fruit on the board, in a cell picked at random.
    pub fn make_fruits(&mut self)
        ensures
            old(self)@.spawns_to(final(self)@),
    {
        let cell = random_cell();
        self.fruits.push(cell);
        assert(self@ == old(self)@.with_fruit(cell));
    }

    /// The snake makes room for its next step and says where its head
    /// goes: it uses up one cell of pending growth, or else draws in its
    /// tail.
    fn creep(&mut self) -> (head: Point)
        requires
            old(self).alive(),
        ensures
            final(self)@ == old(self)@.crept(),
            head == old(self)@.next_head(),
            final(self).wf(),
    {
        if self.extend > 0 {
            self.extend -= 1;
        } else {
            self.body.remove(0);
            assert(self.body@ =~= old(self).body@.drop_first());
        }
        proof {
            lemma_crept_wf(old(self)@);
        }
        let mut last = self.body[self.body.len() - 1];
        assert(!off_field(last)) by {
            assert(last == self@.body[self@.body.len() - 1]);
        }
        last.add(self.direction)
    }

    /// One tick of the round, in which a new fruit appears in `spawn`
    /// should the last one be eaten. The snake makes room for its next
    /// step; if the head would leave the field or run into the body, the
    /// snake dies; otherwise it eats what lies where the head goes and the
    /// head goes there. The round is over once no life is left.
    pub fn handle_state_with(&mut self, spawn: Point) -> (result: StateResult)
        requires
            old(self).alive(),
            old(self).has_room(),
            on_board(spawn),
        ensures
            final(self)@ == old(self)@.advanced(spawn),
            result == final(self)@.signal(),
            final(self).wf(),
            result == StateResult::Continue ==> final(self).alive(),
    {
        let head = self.creep();
        if self.out_of_bounds(head) || self.ate_itself(head) {
            self.die();
        } else {
            self.check_ate_with(head, spawn);
            self.body.push(head);
        }
        proof {
            lemma_advanced_wf(old(self)@, spawn);
        }
        if self.lives == 0 {
            return StateResult::Complete;
        }
        StateResult::Continue
    }

    /// One tick of the round. The snake makes room for its next step; if
    /// the head would leave the field or run into the body, the snake
    /// dies; otherwise it eats what lies where the head goes and the head
    /// goes there. A new fruit appears at random should the last one be
    /// eaten. The round is over once no life is left.
    pub fn handle_state(&mut self) -> (result: StateResult)
        requires
            old(self).alive(),
            old(self).has_room(),
        ensures
            old(self)@.advances_to(final(self)@),
            result == final(self)@.signal(),
            final(self).wf(),
            result == StateResult::Continue ==> final(self).alive(),
    {
        let head = self.creep();
        let ghost spawn = start_fruit();
        if self.out_of_bounds(head) || self.ate_itself(head) {
            self.die();
        } else {
            let ghost crept = self@;
            self.check_ate(head);
            proof {
                spawn = choose|cell: Point| on_board(cell) && self@ == crept.fed(head, cell);
            }
            self.body.push(head);
        }
        proof {
            assert(self@ == old(self)@.advanced(spawn));
            lemma_advanced_wf(old(self)@, spawn);
        }
        if self.lives == 0 {
            return StateResult::Complete;
        }
        StateResult::Continue
    }

    /// One tick of the screen, in which a new fruit appears in `spawn`
    /// should the last one be eaten: the keys are read and, unless the
    /// player asked to leave, the snake moves.
    pub fn run_with(&mut self, terminal: &mut Terminal, spawn: Point) -> (result: StateResult)
        requires
            old(self).alive(),
            old(self).has_room(),
            on_board(spawn),
        ensures
            final(terminal)@ == (TerminalView { pending: Seq::empty(), ..old(terminal)@ }),
            final(self)@ == old(self)@.ticked(decode(old(terminal)@.pending), spawn),
            result == old(self)@.verdict(decode(old(terminal)@.pending), spawn),
            final(self).wf(),
            result == StateResult::Continue ==> final(self).alive(),
    {
        let result = self.handle_events(terminal);
        if result != StateResult::Continue {
            return result;
        }
        self.handle_state_with(spawn)
    }

    /// One tick of the screen: the keys are read and, unless the player
    /// asked to leave, the snake moves.
    pub fn run(&mut self, terminal: &mut Terminal) -> (result: StateResult)
        requires
            old(self).alive(),
            old(self).has_room(),
        ensures
            final(terminal)@ == (TerminalView { pending: Seq::empty(), ..old(terminal)@ }),
            old(self)@.ticks_to(decode(old(terminal)@.pending), final(self)@, result),
            final(self).wf(),
            result == StateResult::Continue ==> final(self).alive(),
    {
        let ghost events = decode(terminal@.pending);
        let result = self.handle_events(terminal);
        if result != StateResult::Continue {
            assert(self@ == old(self)@.ticked(events, start_fruit()));
            assert(on_board(start_fruit()));
            return result;
        }
        let ghost steered = self@;
        let moved = self.handle_state();
        proof {
            let spawn = choose|cell: Point| on_board(cell) && self@ == steered.advanced(cell);
            assert(self@ == old(self)@.ticked(events, spawn));
        }
        moved
    }

    /// Draws the snake and then the fruits.
    pub fn render_gamefield(&self, terminal: &mut Terminal)
        requires
            self.wf(),
            old(terminal).wf(),
        ensures
            final(terminal).wf(),
            final(terminal)@ == (TerminalView {
                grid: self@.field_on(old(terminal)@.grid),
                ..old(terminal)@
            }),
    {
        let ghost blank = terminal@.grid;
        proof {
            lemma_plotted_none(blank, BODY_MARK);
            assert(self.body@.take(0) =~= Seq::<Point>::empty());
        }
        let mut i: usize = 0;
        while i < self.body.len()
            invariant
                i <= self.body@.len(),
                self.wf(),
                terminal.wf(),
                screen_sized(blank),
                terminal@ == (TerminalView {
                    grid: plotted(blank, self.body@.take(i as int), BODY_MARK),
                    ..old(terminal)@
                }),
            decreases self.body@.len() - i,
        {
            let point = self.body[i];
            assert(!off_field(self@.body[i as int]));
            terminal.draw(point.x, point.y, BODY_MARK);
            proof {
                lemma_plotted_next(blank, self.body@, i as int, BODY_MARK);
            }
            i += 1;
        }
        assert(self.body@.take(i as int) == self.body@);
        let ghost snake = terminal@.grid;
        proof {
            lemma_plotted_none(snake, FRUIT_MARK);
            assert(self.fruits@.take(0) =~= Seq::<Point>::empty());
        }
        let mut j: usize = 0;
        while j < self.fruits.len()
            invariant
                j <= self.fruits@.len(),
                self.wf(),
                terminal.wf(),
                screen_sized(snake),
                terminal@ == (TerminalView {
                    grid: plotted(snake, self.fruits@.take(j as int), FRUIT_MARK),
                    ..old(terminal)@
                }),
            decreases self.fruits@.len() - j,
        {
            let fruit = self.fruits[j];
            assert(on_board(self@.fruits[j as int]));
            terminal.draw(fruit.x, fruit.y, FRUIT_MARK);
            proof {
                lemma_plotted_next(snake, self.fruits@, j as int, FRUIT_MARK);
            }
            j += 1;
        }
        assert(self.fruits@.take(j as int) == self.fruits@);
    }

    /// Writes the lives and the score into the topmost row.
    pub fn render_score_lives(&self, terminal: &mut Terminal)
        requires
            self.wf(),
            old(terminal).wf(),
        ensures
            final(terminal).wf(),
            final(terminal)@ == (TerminalView {
                grid: with_hud(old(terminal)@.grid, self@.lives, self@.score),
                ..old(terminal)@
            }),
    {
        proof {
            reveal_strlit("LIVES:");
            reveal_strlit("SCORE:");
            lemma_decimal_width(self.lives as nat);
            lemma_decimal_width(self.score as nat);
        }
        let mut lives = String::from_str("LIVES:");
        lives.append(decimal_text(self.lives as u32).as_str());
        terminal.write(0, 0, lives.as_str());
        let mut score = String::from_str("SCORE:");
        score.append(decimal_text(self.score as u32).as_str());
        terminal.write(SCORE_COLUMN, 0, score.as_str());
    }

    /// Draws the screen of the round: the snake, the fruits, and over them
    /// the lives and the score.
    pub fn render(&self, terminal: &mut Terminal)
        requires
            self.wf(),
            old(terminal).wf(),
        ensures
            final(terminal).wf(),
            final(terminal)@ == (TerminalView {
                grid: self@.drawn_on(old(terminal)@.grid),
                ..old(terminal)@
            }),
    {
        self.render_gamefield(terminal);
        self.render_score_lives(terminal);
    }

    /// Starts a round: three lives, no score, no growth pending, and the
    /// board set up anew.
    pub fn init(&mut self)
        ensures
            final(self)@ == old(self)@.started(),
            final(self).alive(),
    {
        self.lives = LIVES;
        self.score = 0;
        self.extend = 0;
        self.reset();
        proof {
            lemma_start_layout();
        }
    }

}

/// A cell of the board picked at random.
pub fn random_cell() -> (cell: Point)
    ensures
        on_board(cell),
{
    let x = random_between(0, BOARD_WIDTH as i32);
    let y = random_between(0, BOARD_HEIGHT as i32);
    Point { x, y }
}

/// Taking `p` out of `cells` leaves every other cell in place and no `p`.
pub proof fn lemma_without(cells: Seq<Point>, p: Point)
    ensures
        without(cells, p).len() <= cells.len(),
        !without(cells, p).contains(p),
        forall|c: Point| #[trigger] without(cells, p).contains(c) ==> cells.contains(c),
        forall|c: Point| c != p && cells.contains(c) ==> #[trigger] without(cells, p).contains(c),
    decreases cells.len(),
{
    reveal(Seq::filter);
    if cells.len() > 0 {
        let front = cells.drop_last();
        lemma_without(front, p);
        assert forall|c: Point| #[trigger] without(cells, p).contains(c) implies cells.contains(
            c,
        ) by {
            if without(front, p).contains(c) {
                let i = choose|i: int| 0 <= i < front.len() && front[i] == c;
                assert(cells[i] == c);
            } else {
                assert(c == cells.last());
            }
        }
        assert forall|c: Point| c != p && cells.contains(c) implies #[trigger] without(
            cells,
            p,
        ).contains(c) by {
            let i = choose|i: int| 0 <= i < cells.len() && cells[i] == c;
            if i < front.len() {
                assert(front[i] == c);
                assert(front.contains(c));
                assert(without(front, p).contains(c));
                let j = choose|j: int| 0 <= j < without(front, p).len() && without(front, p)[j] == c;
                assert(without(cells, p)[j] == c);
            } else {
                assert(without(cells, p).last() == c);
            }
        }
    }
}

/// Eating keeps a lawful round lawful.
pub proof fn lemma_fed_wf(round: PlayView, p: Point, spawn: Point)
    requires
        round.wf(),
        on_board(spawn),
    ensures
        round.fed(p, spawn).wf(),
        round.fed(p, spawn).fruits.len() >= 1,
        0 <= round.fruits_at(p) <= round.fruits.len(),
{
    lemma_without(round.fruits, p);
    let after = round.fed(p, spawn);
    assert forall|i: int| 0 <= i < after.fruits.len() implies on_board(
        #[trigger] after.fruits[i],
    ) by {
        if without(round.fruits, p).len() > 0 {
            assert(without(round.fruits, p).contains(after.fruits[i]));
            assert(round.fruits.contains(after.fruits[i]));
        }
    }
}

/// Making room for the next step keeps a round lawful and leaves the snake
/// a head.
pub proof fn lemma_crept_wf(round: PlayView)
    requires
        round.alive(),
    ensures
        round.crept().wf(),
        round.crept().body.len() >= 1,
        round.has_room() ==> round.crept().has_room(),
        !off_field(round.crept().body.last()),
        round.crept().body.last().can_add(round.direction),
{
    let crept = round.crept();
    if round.extend <= 0 {
        assert forall|i: int| 0 <= i < crept.body.len() implies !off_field(
            #[trigger] crept.body[i],
        ) by {
            assert(crept.body[i] == round.body[i + 1]);
        }
        assert forall|i: int, j: int|
            0 <= i < crept.body.len() && 0 <= j < crept.body.len() && i != j implies crept.body[i]
            != crept.body[j] by {
            assert(crept.body[i] == round.body[i + 1]);
            assert(crept.body[j] == round.body[j + 1]);
        }
    }
    assert(crept.body.last() == crept.body[crept.body.len() - 1]);
}

/// A tick keeps a round lawful, leaves at least one fruit on the board,
/// and leaves the round able to go on for as long as a life is left.
pub proof fn lemma_advanced_wf(round: PlayView, spawn: Point)
    requires
        round.alive(),
        on_board(spawn),
    ensures
        round.advanced(spawn).wf(),
        round.advanced(spawn).fruits.len() >= 1,
        round.advanced(spawn).lives >= 1 ==> round.advanced(spawn).alive(),
{
    lemma_crept_wf(round);
    lemma_start_layout();
    let crept = round.crept();
    let head = round.next_head();
    let after = round.advanced(spawn);
    if !round.collides() {
        lemma_fed_wf(crept, head, spawn);
        assert forall|i: int| 0 <= i < after.body.len() implies !off_field(
            #[trigger] after.body[i],
        ) by {
            if i < crept.body.len() {
                assert(after.body[i] == crept.body[i]);
            }
        }
        assert forall|i: int, j: int|
            0 <= i < after.body.len() && 0 <= j < after.body.len() && i != j implies after.body[i]
            != after.body[j] by {
            if i < crept.body.len() {
                assert(after.body[i] == crept.body[i]);
                assert(crept.body.contains(crept.body[i]));
            }
            if j < crept.body.len() {
                assert(after.body[j] == crept.body[j]);
                assert(crept.body.contains(crept.body[j]));
            }
        }
    }
}

/// Marking no cell leaves the grid as it is.
pub proof fn lemma_plotted_none(grid: Seq<Seq<char>>, mark: char)
    ensures
        plotted(grid, Seq::empty(), mark) == grid,
{
    assert(plotted(grid, Seq::empty(), mark) =~~= grid);
}

/// Marking one more cell is one more `put`.
pub proof fn lemma_plotted_next(grid: Seq<Seq<char>>, cells: Seq<Point>, i: int, mark: char)
    requires
        screen_sized(grid),
        0 <= i < cells.len(),
        on_board(cells[i]),
    ensures
        put(plotted(grid, cells.take(i), mark), cells[i].x as int, cells[i].y as int, mark)
            == plotted(grid, cells.take(i + 1), mark),
{
    let before = cells.take(i);
    let after = cells.take(i + 1);
    let p = cells[i];
    let left = put(plotted(grid, before, mark), p.x as int, p.y as int, mark);
    let right = plotted(grid, after, mark);
    assert(after.drop_last() == before);
    assert(after.last() == p);
    assert forall|y: int, x: int| 0 <= y < grid.len() && 0 <= x < grid[y].len() implies left[y][x]
        == right[y][x] by {
        let q = Point { x: x as i32, y: y as i32 };
        if before.contains(q) {
            let k = choose|k: int| 0 <= k < before.len() && before[k] == q;
            assert(after[k] == q);
        }
        if after.contains(q) && q != p {
            let k = choose|k: int| 0 <= k < after.len() && after[k] == q;
            assert(before[k] == q);
        }
        if q == p {
            assert(after[i] == q);
        }
    }
    assert(left =~~= right);
}

/// The starting layout is a lawful board.
pub proof fn lemma_start_layout()
    ensures
        start_body().len() == START_LENGTH,
        start_body().no_duplicates(),
        forall|i: int| 0 <= i < start_body().len() ==> !off_field(#[trigger] start_body()[i]),
        on_board(start_fruit()),
{
}

/// The player's wish is always one of the four directions, and the last
/// event that asks for a direction decides it.
pub proof fn law_wish(events: Seq<InputEvent>, current: Point)
    requires
        current.is_direction(),
    ensures
        wished(events, current).is_direction(),
        forall|event: InputEvent|
            heading(event) is Some ==> #[trigger] wished(events.push(event), current) == heading(
                event,
            )->0,
        forall|event: InputEvent|
            heading(event) is None ==> #[trigger] wished(events.push(event), current) == wished(
                events,
                current,
            ),
    decreases events.len(),
{
    if events.len() > 0 {
        law_wish(events.drop_last(), current);
    }
    assert forall|event: InputEvent| true implies events.push(event).drop_last() == events by {
        assert(events.push(event).drop_last() =~= events);
    }
}

/// The snake takes the direction the player wishes for, unless the wish is
/// the direction it has or the reverse of it: then it keeps its direction.
/// So it never turns right round.
pub proof fn law_turn(round: PlayView, events: Seq<InputEvent>)
    requires
        round.direction.is_direction(),
    ensures
        ({
            let wish = wished(events, round.direction);
            let direction = round.steered(events).direction;
            &&& wish != round.direction && wish != round.direction.reversed() ==> direction == wish
            &&& wish == round.direction || wish == round.direction.reversed() ==> direction
                == round.direction
            &&& direction != round.direction.reversed()
            &&& direction.is_direction()
        }),
        round.steered(events) == (PlayView { direction: round.steered(events).direction, ..round }),
{
    law_wish(events, round.direction);
}

/// A tick in which the snake does not die leaves its length as it is when
/// no growth is pending, and adds one cell when growth is pending; the
/// fruit eaten in that tick counts from the next tick on. Length and
/// pending growth together rise by three for each point scored.
pub proof fn law_length(round: PlayView, spawn: Point)
    requires
        round.alive(),
        !round.collides(),
    ensures
        round.extend == 0 ==> round.advanced(spawn).body.len() == round.body.len(),
        round.extend > 0 ==> round.advanced(spawn).body.len() == round.body.len() + 1,
        round.advanced(spawn).body.len() + round.advanced(spawn).extend == round.body.len()
            + round.extend + GROWTH * (round.advanced(spawn).score - round.score),
        round.advanced(spawn).lives == round.lives,
        round.advanced(spawn).body.last() == round.next_head(),
{
}

impl PlayView {
    /// The round after one tick for each cell of `spawns`, which say, tick
    /// by tick, where a new fruit appears should the last one be eaten.
    pub open spec fn played(self, spawns: Seq<Point>) -> PlayView
        decreases spawns.len(),
    {
        if spawns.len() == 0 {
            self
        } else {
            self.played(spawns.drop_last()).advanced(spawns.last())
        }
    }

    /// The snake dies in none of the ticks of `played`.
    pub open spec fn survives(self, spawns: Seq<Point>) -> bool
        decreases spawns.len(),
    {
        spawns.len() == 0 || (self.survives(spawns.drop_last()) && !self.played(
            spawns.drop_last(),
        ).collides())
    }
}

/// Over any run of ticks in which the snake does not die, its length and
/// its pending growth together rise by three for each point scored: all
/// the growth that eating earns is had in the end, and no more.
pub proof fn law_growth(round: PlayView, spawns: Seq<Point>)
    requires
        round.alive(),
        round.survives(spawns),
        forall|i: int| 0 <= i < spawns.len() ==> on_board(#[trigger] spawns[i]),
    ensures
        round.played(spawns).alive(),
        round.played(spawns).lives == round.lives,
        round.played(spawns).score >= round.score,
        round.played(spawns).body.len() + round.played(spawns).extend == round.body.len()
            + round.extend + GROWTH * (round.played(spawns).score - round.score),
    decreases spawns.len(),
{
    if spawns.len() > 0 {
        let before = round.played(spawns.drop_last());
        law_growth(round, spawns.drop_last());
        law_length(before, spawns.last());
        lemma_advanced_wf(before, spawns.last());
        lemma_crept_wf(before);
        lemma_fed_wf(before.crept(), before.next_head(), spawns.last());
    }
}

/// Eating adds one to the score and three to the pending growth for each
/// fruit in the cell, takes those fruits off the board and leaves every
/// other fruit where it is. If no fruit is left, one new fruit appears, on
/// the board.
pub proof fn law_eating(round: PlayView, p: Point, spawn: Point)
    requires
        round.wf(),
        on_board(spawn),
    ensures
        round.fruits.contains(p) <==> round.fruits_at(p) >= 1,
        round.fed(p, spawn).score == round.score + round.fruits_at(p),
        round.fed(p, spawn).extend == round.extend + GROWTH * round.fruits_at(p),
        round.fruits_at(p) == 1 ==> round.fed(p, spawn).score == round.score + 1 && round.fed(
            p,
            spawn,
        ).extend == round.extend + 3,
        !round.fruits.contains(p) ==> round.fed(p, spawn).score == round.score && round.fed(
            p,
            spawn,
        ).extend == round.extend,
        without(round.fruits, p).len() > 0 ==> round.fed(p, spawn).fruits == without(
            round.fruits,
            p,
        ),
        without(round.fruits, p).len() == 0 ==> round.fed(p, spawn).fruits == seq![spawn],
        !without(round.fruits, p).contains(p),
        forall|c: Point|
            c != p && round.fruits.contains(c) ==> #[trigger] without(round.fruits, p).contains(c),
        forall|c: Point| #[trigger]
            without(round.fruits, p).contains(c) ==> round.fruits.contains(c),
        round.fed(p, spawn).fruits.len() >= 1,
        forall|i: int|
            0 <= i < round.fed(p, spawn).fruits.len() ==> on_board(
                #[trigger] round.fed(p, spawn).fruits[i],
            ),
{
    lemma_without(round.fruits, p);
    lemma_without_count(round.fruits, p);
    lemma_fed_wf(round, p, spawn);
}

/// When the snake eats the only fruit on the board, the score rises by
/// one, the pending growth by three, and exactly one new fruit appears.
pub proof fn law_last_fruit(round: PlayView, p: Point, spawn: Point)
    requires
        round.fruits == seq![p],
    ensures
        round.fed(p, spawn).score == round.score + 1,
        round.fed(p, spawn).extend == round.extend + 3,
        round.fed(p, spawn).fruits == seq![spawn],
{
    reveal_with_fuel(Seq::filter, 2);
    assert(round.fruits.drop_last() =~= Seq::<Point>::empty());
    assert(without(round.fruits, p) =~= Seq::<Point>::empty());
}

/// When the snake dies, it is back in its starting place and heads right,
/// the one starting fruit is on the board, one life is gone and the score
/// stays. The round is over exactly when that was the last life.
pub proof fn law_death(round: PlayView, spawn: Point)
    requires
        round.alive(),
        round.collides(),
    ensures
        round.advanced(spawn).body == start_body(),
        round.advanced(spawn).direction == Point::right(),
        round.advanced(spawn).fruits == seq![start_fruit()],
        round.advanced(spawn).lives == round.lives - 1,
        round.advanced(spawn).score == round.score,
        round.advanced(spawn).extend == round.crept().extend,
        round.advanced(spawn).signal() == StateResult::Complete <==> round.lives == 1,
{
}

/// The topmost row is no place for the snake, whatever the column.
pub proof fn law_top_row(p: Point)
    requires
        p.y < 1,
    ensures
        off_field(p),
{
}

/// A request to leave ends the tick of a round with `Exit` and leaves the
/// round as it was, whatever the events before and after it.
pub proof fn law_play_quit(
    round: PlayView,
    before: Seq<InputEvent>,
    after: Seq<InputEvent>,
    spawn: Point,
)
    ensures
        round.verdict(before.push(InputEvent::Quit) + after, spawn) == StateResult::Exit,
        round.ticked(before.push(InputEvent::Quit) + after, spawn) == round,
{
    let events = before.push(InputEvent::Quit) + after;
    assert(events[before.len() as int] == InputEvent::Quit);
}

/// The cells taken out are as many as were equal to `p`: none if `p` was
/// not there, at least one if it was.
pub proof fn lemma_without_count(cells: Seq<Point>, p: Point)
    ensures
        cells.contains(p) <==> without(cells, p).len() < cells.len(),
    decreases cells.len(),
{
    reveal(Seq::filter);
    lemma_without(cells, p);
    if cells.len() > 0 {
        let front = cells.drop_last();
        lemma_without_count(front, p);
        lemma_without(front, p);
        if cells.contains(p) {
            let i = choose|i: int| 0 <= i < cells.len() && cells[i] == p;
            if i < front.len() {
                assert(front[i] == p);
            }
        }
        if front.contains(p) {
            let i = choose|i: int| 0 <= i < front.len() && front[i] == p;
            assert(cells[i] == p);
        }
        if cells.last() == p {
            assert(cells[cells.len() - 1] == p);
        }
    }
}

} // verus!
