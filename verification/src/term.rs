//! The terminal as the game sees it: the keys that were pressed and not yet
//! read, a frame buffer of characters, and the text sent to the screen and
//! not yet taken by whoever holds the real device.

use vstd::prelude::*;
use crate::ansi::{
    blue_sequence, clear_sequence, clear_text, goto_sequence, goto_text, hide_sequence, hide_text,
    is_background, is_foreground, show_sequence, show_text, white_sequence,
};
use crate::consts::{SCREEN_HEIGHT, SCREEN_WIDTH};

verus! {

/// What a key press means to the game.
#[derive(Copy, Clone, Debug, PartialEq, Eq, Structural)]
pub enum InputEvent {
    Quit,
    Up,
    Down,
    Left,
    Right,
    Fire,
}

/// The key `w`, which turns the snake upwards.
pub const KEY_UP: u8 = 119;

/// The key `s`, which turns the snake downwards.
pub const KEY_DOWN: u8 = 115;

/// The key `a`, which turns the snake to the left.
pub const KEY_LEFT: u8 = 97;

/// The key `d`, which turns the snake to the right.
pub const KEY_RIGHT: u8 = 100;

/// The key `q`, which ends the program.
pub const KEY_QUIT: u8 = 113;

/// The space bar, which leaves a title screen.
pub const KEY_FIRE: u8 = 32;

/// The meaning of one key, if it has one.
pub open spec fn key_event(key: u8) -> Option<InputEvent> {
    if key == KEY_UP {
        Some(InputEvent::Up)
    } else if key == KEY_DOWN {
        Some(InputEvent::Down)
    } else if key == KEY_LEFT {
        Some(InputEvent::Left)
    } else if key == KEY_RIGHT {
        Some(InputEvent::Right)
    } else if key == KEY_QUIT {
        Some(InputEvent::Quit)
    } else if key == KEY_FIRE {
        Some(InputEvent::Fire)
    } else {
        None
    }
}

/// The events that a run of keys stands for, in the order of the keys; keys
/// without a meaning leave no trace.
pub open spec fn decode(keys: Seq<u8>) -> Seq<InputEvent>
    decreases keys.len(),
{
    if keys.len() == 0 {
        Seq::empty()
    } else {
        match key_event(keys.last()) {
            Some(event) => decode(keys.drop_last()).push(event),
            None => decode(keys.drop_last()),
        }
    }
}

/// A grid with the size of the screen.
pub open spec fn screen_sized(grid: Seq<Seq<char>>) -> bool {
    &&& grid.len() == SCREEN_HEIGHT
    &&& forall|row: int| 0 <= row < grid.len() ==> (#[trigger] grid[row]).len() == SCREEN_WIDTH
}

/// The grid in which every cell holds a space.
pub open spec fn blank_grid() -> Seq<Seq<char>> {
    Seq::new(SCREEN_HEIGHT as nat, |row: int| Seq::new(SCREEN_WIDTH as nat, |column: int| ' '))
}

/// The position lies on the screen.
pub open spec fn on_screen(x: int, y: int) -> bool {
    0 <= x < SCREEN_WIDTH && 0 <= y < SCREEN_HEIGHT
}

/// The grid with `c` in column `x` of row `y`.
pub open spec fn put(grid: Seq<Seq<char>>, x: int, y: int, c: char) -> Seq<Seq<char>> {
    grid.update(y, grid[y].update(x, c))
}

/// The grid with `text` laid over row `y` from column `x` on.
pub open spec fn put_text(grid: Seq<Seq<char>>, x: int, y: int, text: Seq<char>) -> Seq<
    Seq<char>,
> {
    grid.update(
        y,
        Seq::new(
            grid[y].len(),
            |column: int|
                if x <= column < x + text.len() {
                    text[column - x]
                } else {
                    grid[y][column]
                },
        ),
    )
}

/// What one row of a frame sends to the screen: the cursor goes to the start
/// of the row, the colours are chosen, and the cells follow.
pub open spec fn row_text(row: int, cells: Seq<char>, fg: Seq<char>, bg: Seq<char>) -> Seq<char> {
    goto_text(1, (row + 1) as nat) + fg + bg + cells
}

/// What a frame sends to the screen: every row of the grid, from the top.
pub open spec fn frame_text(grid: Seq<Seq<char>>, fg: Seq<char>, bg: Seq<char>) -> Seq<char>
    decreases grid.len(),
{
    if grid.len() == 0 {
        Seq::empty()
    } else {
        frame_text(grid.drop_last(), fg, bg) + row_text(grid.len() - 1, grid.last(), fg, bg)
    }
}

/// What leaving the game sends to the screen: the screen is cleared, the
/// cursor goes to the top left corner and is shown again.
pub open spec fn restore_text() -> Seq<char> {
    clear_text() + goto_text(1, 1) + show_text()
}

/// The terminal as a value.
pub struct TerminalView {
    /// The frame buffer, row by row from the top.
    pub grid: Seq<Seq<char>>,
    /// The keys pressed since they were last read, oldest first.
    pub pending: Seq<u8>,
    /// The text sent to the screen since it was last taken.
    pub output: Seq<char>,
}

impl TerminalView {
    /// The terminal after the frame buffer was sent to the screen with the
    /// given colour sequences.
    pub open spec fn flushed(self, fg: Seq<char>, bg: Seq<char>) -> TerminalView {
        TerminalView { output: self.output + frame_text(self.grid, fg, bg), ..self }
    }

    /// `after` is this terminal once the frame buffer was sent to the screen,
    /// whatever the terminal library chose to write for the two colours.
    pub open spec fn flushes_to(self, after: TerminalView) -> bool {
        exists|fg: Seq<char>, bg: Seq<char>|
            is_foreground(fg) && is_background(bg) && after == #[trigger] self.flushed(fg, bg)
    }
}

pub struct Terminal {
    buffer: Vec<Vec<char>>,
    pending: Vec<u8>,
    output: String,
}

impl View for Terminal {
    type V = TerminalView;

    closed spec fn view(&self) -> TerminalView {
        TerminalView {
            grid: Seq::new(self.buffer@.len(), |row: int| self.buffer@[row]@),
            pending: self.pending@,
            output: self.output@,
        }
    }
}

pub fn key_to_event(key: u8) -> (event: Option<InputEvent>)
    ensures
        event == key_event(key),
{
    if key == KEY_UP {
        Some(InputEvent::Up)
    } else if key == KEY_DOWN {
        Some(InputEvent::Down)
    } else if key == KEY_LEFT {
        Some(InputEvent::Left)
    } else if key == KEY_RIGHT {
        Some(InputEvent::Right)
    } else if key == KEY_QUIT {
        Some(InputEvent::Quit)
    } else if key == KEY_FIRE {
        Some(InputEvent::Fire)
    } else {
        None
    }
}

impl Terminal {
    /// The frame buffer has the size of the screen.
    pub open spec fn wf(&self) -> bool {
        screen_sized(self@.grid)
    }

    /// A terminal with a blank frame buffer and no key pressed, which has
    /// been told to hide its cursor.
    pub fn new() -> (terminal: Terminal)
        ensures
            terminal.wf(),
            terminal@.grid == blank_grid(),
            terminal@.pending == Seq::<u8>::empty(),
            terminal@.output == hide_text(),
    {
        let mut buffer: Vec<Vec<char>> = Vec::new();
        let mut row: usize = 0;
        while row < SCREEN_HEIGHT
            invariant
                row <= SCREEN_HEIGHT,
                buffer@.len() == row,
                forall|r: int| 0 <= r < row ==> (#[trigger] buffer@[r])@ == blank_grid()[r],
            decreases SCREEN_HEIGHT - row,
        {
            let mut cells: Vec<char> = Vec::new();
            let mut column: usize = 0;
            while column < SCREEN_WIDTH
                invariant
                    column <= SCREEN_WIDTH,
                    cells@.len() == column,
                    forall|c: int| 0 <= c < column ==> cells@[c] == ' ',
                decreases SCREEN_WIDTH - column,
            {
                cells.push(' ');
                column += 1;
            }
            assert(cells@ =~= blank_grid()[row as int]);
            buffer.push(cells);
            row += 1;
        }
        let terminal = Terminal { buffer, pending: Vec::new(), output: hide_sequence() };
        assert(terminal@.grid =~= blank_grid());
        terminal
    }

    /// Puts `c` into column `x` of row `y`.
    pub fn draw(&mut self, x: i32, y: i32, c: char)
        requires
            old(self).wf(),
            on_screen(x as int, y as int),
        ensures
            final(self).wf(),
            final(self)@ == (TerminalView {
                grid: put(old(self)@.grid, x as int, y as int, c),
                ..old(self)@
            }),
    {
        assert(self@.grid[y as int] == self.buffer@[y as int]@);
        self.buffer[y as usize][x as usize] = c;
        assert(self@.grid =~= put(old(self)@.grid, x as int, y as int, c));
    }

    /// Lays `s` over row `y`, its first character in column `x`.
    pub fn write(&mut self, x: i32, y: i32, s: &str)
        requires
            old(self).wf(),
            0 <= y < SCREEN_HEIGHT,
            0 <= x,
            x + s@.len() <= SCREEN_WIDTH,
        ensures
            final(self).wf(),
            final(self)@ == (TerminalView {
                grid: put_text(old(self)@.grid, x as int, y as int, s@),
                ..old(self)@
            }),
    {
        let length = s.unicode_len();
        let mut done: usize = 0;
        assert(self@.grid =~~= put_text(old(self)@.grid, x as int, y as int, s@.take(0)));
        while done < length
            invariant
                done <= length == s@.len(),
                0 <= y < SCREEN_HEIGHT,
                0 <= x,
                x + s@.len() <= SCREEN_WIDTH,
                old(self).wf(),
                self.wf(),
                self@ == (TerminalView {
                    grid: put_text(old(self)@.grid, x as int, y as int, s@.take(done as int)),
                    ..old(self)@
                }),
            decreases length - done,
        {
            let c = s.get_char(done);
            let ghost before = self@.grid;
            assert(before[y as int] == self.buffer@[y as int]@);
            self.buffer[y as usize][x as usize + done] = c;
            assert(self@.grid =~= put(before, x + done, y as int, c));
            done += 1;
            assert(self@.grid =~~= put_text(
                old(self)@.grid,
                x as int,
                y as int,
                s@.take(done as int),
            ));
        }
        assert(s@.take(done as int) == s@);
    }

    /// Fills the frame buffer with spaces.
    pub fn clear(&mut self)
        requires
            old(self).wf(),
        ensures
            final(self).wf(),
            final(self)@ == (TerminalView { grid: blank_grid(), ..old(self)@ }),
    {
        let mut row: usize = 0;
        while row < SCREEN_HEIGHT
            invariant
                row <= SCREEN_HEIGHT,
                self.wf(),
                self@.pending == old(self)@.pending,
                self@.output == old(self)@.output,
                forall|r: int| 0 <= r < row ==> (#[trigger] self@.grid[r]) == blank_grid()[r],
            decreases SCREEN_HEIGHT - row,
        {
            let mut column: usize = 0;
            while column < SCREEN_WIDTH
                invariant
                    row < SCREEN_HEIGHT,
                    column <= SCREEN_WIDTH,
                    self.wf(),
                    self@.pending == old(self)@.pending,
                    self@.output == old(self)@.output,
                    forall|r: int| 0 <= r < row ==> (#[trigger] self@.grid[r]) == blank_grid()[r],
                    forall|c: int| 0 <= c < column ==> (#[trigger] self@.grid[row as int][c]) == ' ',
                decreases SCREEN_WIDTH - column,
            {
                assert(self@.grid[row as int] == self.buffer@[row as int]@);
                let ghost before = self@.grid;
                self.buffer[row][column] = ' ';
                assert(self@.grid =~= put(before, column as int, row as int, ' '));
                column += 1;
            }
            assert(self@.grid[row as int] =~= blank_grid()[row as int]);
            row += 1;
        }
        assert(self@.grid =~= blank_grid());
    }

    /// Sends the frame buffer to the screen, row by row, with the colour
    /// sequences handed in.
    pub fn flush_with(&mut self, fg: &str, bg: &str)
        requires
            old(self).wf(),
        ensures
            final(self).wf(),
            final(self)@ == old(self)@.flushed(fg@, bg@),
    {
        let mut row: usize = 0;
        while row < SCREEN_HEIGHT
            invariant
                row <= SCREEN_HEIGHT,
                self.wf(),
                self@.grid == old(self)@.grid,
                self@.pending == old(self)@.pending,
                self@.output == old(self)@.output + frame_text(
                    self@.grid.take(row as int),
                    fg@,
                    bg@,
                ),
            decreases SCREEN_HEIGHT - row,
        {
            let ghost sent = self@.output;
            let cursor = goto_sequence(1, row as u16 + 1);
            self.output.append(cursor.as_str());
            self.output.append(fg);
            self.output.append(bg);
            assert(self@.grid[row as int] == self.buffer@[row as int]@);
            let mut column: usize = 0;
            while column < SCREEN_WIDTH
                invariant
                    row < SCREEN_HEIGHT,
                    column <= SCREEN_WIDTH,
                    self.wf(),
                    self@.grid == old(self)@.grid,
                    self@.pending == old(self)@.pending,
                    self@.grid[row as int] == self.buffer@[row as int]@,
                    self@.output == sent + goto_text(1, (row + 1) as nat) + fg@ + bg@
                        + self@.grid[row as int].take(column as int),
                decreases SCREEN_WIDTH - column,
            {
                let c = self.buffer[row][column];
                self.output.push(c);
                assert(self@.grid[row as int].take(column + 1) =~= self@.grid[row as int].take(
                    column as int,
                ).push(c));
                column += 1;
            }
            proof {
                let cells = self@.grid[row as int];
                assert(cells.take(column as int) == cells);
                let upto = self@.grid.take(row + 1);
                assert(upto.drop_last() == self@.grid.take(row as int));
                assert(upto.last() == cells);
                assert(self@.output =~= old(self)@.output + frame_text(upto, fg@, bg@));
            }
            row += 1;
        }
        assert(self@.grid.take(row as int) == self@.grid);
    }

    /// Sends the frame buffer to the screen, row by row, white on blue
    /// unless the terminal library leaves colours out.
    pub fn flush(&mut self)
        requires
            old(self).wf(),
        ensures
            final(self).wf(),
            old(self)@.flushes_to(final(self)@),
    {
        let fg = white_sequence();
        let bg = blue_sequence();
        self.flush_with(fg.as_str(), bg.as_str());
        assert(self@ == old(self)@.flushed(fg@, bg@));
    }

    /// Tells the screen to clear itself.
    pub fn clear_screen(&mut self)
        ensures
            final(self)@ == (TerminalView {
                output: old(self)@.output + clear_text(),
                ..old(self)@
            }),
    {
        let clear = clear_sequence();
        self.output.append(clear.as_str());
    }

    /// Tells the screen to clear itself and to show the cursor again, in the
    /// top left corner. To be called when the game is left, on every path.
    pub fn restore(&mut self)
        ensures
            final(self)@ == (TerminalView {
                output: old(self)@.output + restore_text(),
                ..old(self)@
            }),
    {
        self.clear_screen();
        let home = goto_sequence(1, 1);
        let show = show_sequence();
        self.output.append(home.as_str());
        self.output.append(show.as_str());
        assert(self@.output =~= old(self)@.output + restore_text());
    }

    /// Hands over the text sent to the screen since the last call.
    pub fn take_output(&mut self) -> (text: String)
        ensures
            text@ == old(self)@.output,
            final(self)@ == (TerminalView { output: Seq::empty(), ..old(self)@ }),
    {
        let mut text = String::new();
        core::mem::swap(&mut self.output, &mut text);
        text
    }

    /// The character in column `x` of row `y` of the frame buffer.
    pub fn cell(&self, x: i32, y: i32) -> (c: char)
        requires
            self.wf(),
            on_screen(x as int, y as int),
        ensures
            c == self@.grid[y as int][x as int],
    {
        assert(self@.grid[y as int] == self.buffer@[y as int]@);
        self.buffer[y as usize][x as usize]
    }

    /// Records a key press.
    pub fn feed(&mut self, key: u8)
        ensures
            final(self)@ == (TerminalView {
                pending: old(self)@.pending.push(key),
                ..old(self)@
            }),
    {
        self.pending.push(key);
    }

    /// Reads the keys pressed since the last call and gives what they mean,
    /// in the order in which they were pressed.
    pub fn events(&mut self) -> (events: Vec<InputEvent>)
        ensures
            events@ == decode(old(self)@.pending),
            final(self)@ == (TerminalView { pending: Seq::empty(), ..old(self)@ }),
    {
        let mut events: Vec<InputEvent> = Vec::new();
        let mut next: usize = 0;
        while next < self.pending.len()
            invariant
                next <= self.pending@.len(),
                *self == *old(self),
                events@ == decode(self.pending@.take(next as int)),
            decreases self.pending@.len() - next,
        {
            let key = self.pending[next];
            proof {
                let read = self.pending@.take(next + 1);
                assert(read.drop_last() == self.pending@.take(next as int));
                assert(read.last() == key);
            }
            match key_to_event(key) {
                Some(event) => {
                    events.push(event);
                },
                None => {},
            }
            next += 1;
        }
        assert(self.pending@.take(next as int) == self.pending@);
        self.pending.clear();
        events
    }
}

} // verus!
