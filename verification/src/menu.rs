//! The two screens that only show a text and wait for a key: the title
//! before a round and the banner after it.

use vstd::prelude::*;
use crate::state::StateResult;
use crate::term::{decode, put_text, InputEvent, Terminal, TerminalView};

verus! {

/// Column and row of the title.
pub const TITLE_COLUMN: i32 = 35;

pub const TITLE_ROW: i32 = 15;

/// Column and row of the line under the title.
pub const PROMPT_COLUMN: i32 = 30;

pub const PROMPT_ROW: i32 = 17;

/// Column and row of the banner that ends a round.
pub const BANNER_COLUMN: i32 = 31;

pub const BANNER_ROW: i32 = 15;

/// What a waiting screen reports for a run of events: the first request to
/// go on or to leave decides, and what follows it is not looked at.
pub open spec fn menu_outcome(events: Seq<InputEvent>) -> StateResult
    decreases events.len(),
{
    if events.len() == 0 {
        StateResult::Continue
    } else {
        match events.first() {
            InputEvent::Fire => StateResult::Complete,
            InputEvent::Quit => StateResult::Exit,
            _ => menu_outcome(events.drop_first()),
        }
    }
}

/// A request to leave ends a waiting screen's tick with `Exit`, whatever
/// follows it among the events, unless a request to go on came before it.
pub proof fn law_menu_quit(before: Seq<InputEvent>, after: Seq<InputEvent>)
    requires
        !before.contains(InputEvent::Fire),
    ensures
        menu_outcome(before.push(InputEvent::Quit) + after) == StateResult::Exit,
    decreases before.len(),
{
    let events = before.push(InputEvent::Quit) + after;
    if before.len() == 0 {
        assert(events.first() == InputEvent::Quit);
    } else {
        assert(events.first() == before[0]);
        assert(before[0] != InputEvent::Fire);
        let rest = before.drop_first();
        assert forall|i: int| 0 <= i < rest.len() implies rest[i] != InputEvent::Fire by {
            assert(rest[i] == before[i + 1]);
        }
        assert(events.drop_first() =~= rest.push(InputEvent::Quit) + after);
        law_menu_quit(rest, after);
    }
}

/// A request to go on ends a waiting screen's tick with `Complete`,
/// whatever follows it among the events, unless a request to leave came
/// before it.
pub proof fn law_menu_fire(before: Seq<InputEvent>, after: Seq<InputEvent>)
    requires
        !before.contains(InputEvent::Quit),
    ensures
        menu_outcome(before.push(InputEvent::Fire) + after) == StateResult::Complete,
    decreases before.len(),
{
    let events = before.push(InputEvent::Fire) + after;
    if before.len() == 0 {
        assert(events.first() == InputEvent::Fire);
    } else {
        assert(events.first() == before[0]);
        assert(before[0] != InputEvent::Quit);
        let rest = before.drop_first();
        assert forall|i: int| 0 <= i < rest.len() implies rest[i] != InputEvent::Quit by {
            assert(rest[i] == before[i + 1]);
        }
        assert(events.drop_first() =~= rest.push(InputEvent::Fire) + after);
        law_menu_fire(rest, after);
    }
}

/// A waiting screen goes on for as long as neither request is made.
pub proof fn law_menu_waits(events: Seq<InputEvent>)
    requires
        !events.contains(InputEvent::Fire),
        !events.contains(InputEvent::Quit),
    ensures
        menu_outcome(events) == StateResult::Continue,
    decreases events.len(),
{
    if events.len() > 0 {
        assert(events[0] != InputEvent::Fire && events[0] != InputEvent::Quit);
        let rest = events.drop_first();
        assert forall|i: int| 0 <= i < rest.len() implies rest[i] != InputEvent::Fire && rest[i]
            != InputEvent::Quit by {
            assert(rest[i] == events[i + 1]);
        }
        law_menu_waits(rest);
    }
}

/// The grid with the title screen written into it.
pub open spec fn intro_on(grid: Seq<Seq<char>>) -> Seq<Seq<char>> {
    put_text(
        put_text(grid, TITLE_COLUMN as int, TITLE_ROW as int, "S N A K E"@),
        PROMPT_COLUMN as int,
        PROMPT_ROW as int,
        "Press space to start"@,
    )
}

/// The grid with the banner that ends a round written into it.
pub open spec fn over_on(grid: Seq<Seq<char>>) -> Seq<Seq<char>> {
    put_text(grid, BANNER_COLUMN as int, BANNER_ROW as int, "G A M E    O V E R"@)
}

/// Reads the keys pressed since the last tick and tells what a waiting
/// screen makes of them.
fn wait_for_key(terminal: &mut Terminal) -> (result: StateResult)
    ensures
        final(terminal)@ == (TerminalView { pending: Seq::empty(), ..old(terminal)@ }),
        result == menu_outcome(decode(old(terminal)@.pending)),
{
    let events = terminal.events();
    let mut i: usize = 0;
    assert(events@.skip(0) =~= events@);
    while i < events.len()
        invariant
            i <= events@.len(),
            events@ == decode(old(terminal)@.pending),
            terminal@ == (TerminalView { pending: Seq::empty(), ..old(terminal)@ }),
            menu_outcome(events@) == menu_outcome(events@.skip(i as int)),
        decreases events@.len() - i,
    {
        let ghost rest = events@.skip(i as int);
        assert(rest.first() == events@[i as int]);
        assert(rest.drop_first() == events@.skip(i + 1));
        match events[i] {
            InputEvent::Fire => {
                return StateResult::Complete;
            },
            InputEvent::Quit => {
                return StateResult::Exit;
            },
            _ => {},
        }
        i += 1;
    }
    StateResult::Continue
}

/// The title screen.
pub struct GameIntro {}

impl GameIntro {
    pub fn new() -> GameIntro {
        GameIntro {  }
    }

    /// Entering the title screen changes nothing.
    pub fn init(&mut self)
        ensures
            *final(self) == *old(self),
    {
    }

    /// One tick of the title screen: the space bar starts a round, the key
    /// to leave ends the program, whichever comes first.
    pub fn run(&mut self, terminal: &mut Terminal) -> (result: StateResult)
        ensures
            final(terminal)@ == (TerminalView { pending: Seq::empty(), ..old(terminal)@ }),
            result == menu_outcome(decode(old(terminal)@.pending)),
    {
        wait_for_key(terminal)
    }

    /// Writes the title and, under it, what to press.
    pub fn render(&self, terminal: &mut Terminal)
        requires
            old(terminal).wf(),
        ensures
            final(terminal).wf(),
            final(terminal)@ == (TerminalView {
                grid: intro_on(old(terminal)@.grid),
                ..old(terminal)@
            }),
    {
        proof {
            reveal_strlit("S N A K E");
            reveal_strlit("Press space to start");
        }
        terminal.write(TITLE_COLUMN, TITLE_ROW, "S N A K E");
        terminal.write(PROMPT_COLUMN, PROMPT_ROW, "Press space to start");
    }
}

/// The screen that ends a round.
pub struct GameOver {}

impl GameOver {
    pub fn new() -> GameOver {
        GameOver {  }
    }

    /// Entering the screen changes nothing.
    pub fn init(&mut self)
        ensures
            *final(self) == *old(self),
    {
    }

    /// One tick of the screen: the space bar leads back to the title, the
    /// key to leave ends the program, whichever comes first.
    pub fn run(&mut self, terminal: &mut Terminal) -> (result: StateResult)
        ensures
            final(terminal)@ == (TerminalView { pending: Seq::empty(), ..old(terminal)@ }),
            result == menu_outcome(decode(old(terminal)@.pending)),
    {
        wait_for_key(terminal)
    }

    /// Writes the banner.
    pub fn render(&self, terminal: &mut Terminal)
        requires
            old(terminal).wf(),
        ensures
            final(terminal).wf(),
            final(terminal)@ == (TerminalView {
                grid: over_on(old(terminal)@.grid),
                ..old(terminal)@
            }),
    {
        proof {
            reveal_strlit("G A M E    O V E R");
        }
        terminal.write(BANNER_COLUMN, BANNER_ROW, "G A M E    O V E R");
    }
}

} // verus!
