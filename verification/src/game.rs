//! The game as a whole: a ring of three screens, of which one is on show.
//! Each tick the screen on show reads the keys and either draws a frame,
//! gives way to the next screen, or asks to leave the program.

use vstd::prelude::*;
use crate::ansi::{clear_text, is_background, is_foreground};
use crate::menu::{
    intro_on, law_menu_fire, law_menu_quit, menu_outcome, over_on, GameIntro, GameOver,
};
use crate::play::{law_play_quit, on_board, start_fruit, GamePlay, PlayView};
use crate::state::StateResult;
use crate::term::{blank_grid, decode, InputEvent, Terminal, TerminalView};
use crate::types::Point;

verus! {

/// The screens of the game, in the order in which they follow each other.
#[derive(Copy, Clone, Debug, PartialEq, Eq, Structural)]
pub enum Stage {
    Intro,
    Play,
    Over,
}

impl Stage {
    /// The screen that follows this one; after the last comes the first.
    pub open spec fn spec_next(self) -> Stage {
        match self {
            Stage::Intro => Stage::Play,
            Stage::Play => Stage::Over,
            Stage::Over => Stage::Intro,
        }
    }

    /// The screen that follows this one; after the last comes the first.
    #[verifier::when_used_as_spec(spec_next)]
    pub fn next(self) -> (stage: Stage)
        ensures
            stage == self.spec_next(),
    {
        match self {
            Stage::Intro => Stage::Play,
            Stage::Play => Stage::Over,
            Stage::Over => Stage::Intro,
        }
    }
}

/// The game as a value: which screen is on show, and the round, which
/// outlives the screen that plays it.
pub struct GameView {
    pub stage: Stage,
    pub play: PlayView,
}

impl GameView {
    /// The round is lawful, and can go on while its screen is on show.
    pub open spec fn wf(self) -> bool {
        &&& self.play.wf()
        &&& self.stage == Stage::Play ==> self.play.alive()
    }

    /// The counters of the round can take what a tick may add to them.
    pub open spec fn has_room(self) -> bool {
        self.stage == Stage::Play ==> self.play.has_room()
    }

    /// The game as `stage` comes on show: a round starts afresh when its
    /// screen is entered, the other screens have nothing to set up.
    pub open spec fn entered(self, stage: Stage) -> GameView {
        GameView {
            stage,
            play: if stage == Stage::Play {
                self.play.started()
            } else {
                self.play
            },
        }
    }

    /// What the screen on show reports for the events of a tick.
    pub open spec fn result_of(self, events: Seq<InputEvent>, spawn: Point) -> StateResult {
        if self.stage == Stage::Play {
            self.play.verdict(events, spawn)
        } else {
            menu_outcome(events)
        }
    }

    /// The game after the screen on show has dealt with the events of a
    /// tick, before the ring moves.
    pub open spec fn played(self, events: Seq<InputEvent>, spawn: Point) -> GameView {
        if self.stage == Stage::Play {
            GameView { play: self.play.ticked(events, spawn), ..self }
        } else {
            self
        }
    }

    /// The game one tick later: the screen on show deals with the events,
    /// and if it is over, the next screen of the ring comes on show.
    pub open spec fn ticked(self, events: Seq<InputEvent>, spawn: Point) -> GameView {
        if self.result_of(events, spawn) == StateResult::Complete {
            self.played(events, spawn).entered(self.stage.next())
        } else {
            self.played(events, spawn)
        }
    }

    /// The grid with the screen on show drawn into it.
    pub open spec fn shown_on(self, grid: Seq<Seq<char>>) -> Seq<Seq<char>> {
        match self.stage {
            Stage::Intro => intro_on(grid),
            Stage::Play => self.play.drawn_on(grid),
            Stage::Over => over_on(grid),
        }
    }

    /// The terminal one tick later: the keys are read and the frame buffer
    /// is wiped; if the screen goes on, it is drawn and the frame is sent
    /// to the screen with the given colour sequences.
    pub open spec fn screen_after(
        self,
        before: TerminalView,
        spawn: Point,
        fg: Seq<char>,
        bg: Seq<char>,
    ) -> TerminalView {
        let events = decode(before.pending);
        let wiped = TerminalView { grid: blank_grid(), pending: Seq::empty(), ..before };
        if self.result_of(events, spawn) == StateResult::Continue {
            (TerminalView {
                grid: self.ticked(events, spawn).shown_on(blank_grid()),
                ..wiped
            }).flushed(fg, bg)
        } else {
            wiped
        }
    }

    /// `after`, `screen` and `result` are the game, the terminal and the
    /// report one tick later, wherever on the board a new fruit appeared if
    /// one was due and whatever the terminal library wrote for the colours.
    pub open spec fn ticks_to(
        self,
        before: TerminalView,
        after: GameView,
        screen: TerminalView,
        result: StateResult,
    ) -> bool {
        exists|spawn: Point, fg: Seq<char>, bg: Seq<char>|
            on_board(spawn) && is_foreground(fg) && is_background(bg) && after == self.ticked(
                decode(before.pending),
                spawn,
            ) && result == self.result_of(decode(before.pending), spawn) && screen
                == #[trigger] self.screen_after(before, spawn, fg, bg)
    }
}

pub struct Game {
    intro: GameIntro,
    play: GamePlay,
    over: GameOver,
    active: Stage,
}

impl View for Game {
    type V = GameView;

    closed spec fn view(&self) -> GameView {
        GameView { stage: self.active, play: self.play@ }
    }
}

impl Game {
    pub open spec fn wf(&self) -> bool {
        self@.wf()
    }

    pub open spec fn has_room(&self) -> bool {
        self@.has_room()
    }

    /// A game that shows its title, on a screen that it has told to clear
    /// itself.
    pub fn new(terminal: &mut Terminal) -> (game: Game)
        ensures
            game.wf(),
            game.has_room(),
            game@ == (GameView { stage: Stage::Intro, play: PlayView::fresh() }),
            final(terminal)@ == (TerminalView {
                output: old(terminal)@.output + clear_text(),
                ..old(terminal)@
            }),
    {
        terminal.clear_screen();
        let mut game = Game {
            intro: GameIntro::new(),
            play: GamePlay::new(),
            over: GameOver::new(),
            active: Stage::Intro,
        };
        game.intro.init();
        game
    }

    /// The screen on show.
    pub fn stage(&self) -> (stage: Stage)
        ensures
            stage == self@.stage,
    {
        self.active
    }

    /// The round.
    pub fn play(&self) -> (play: &GamePlay)
        ensures
            play@ == self@.play,
    {
        &self.play
    }

    /// Whether the counters of the round can take what a tick may add to
    /// them.
    pub fn check_room(&self) -> (room: bool)
        requires
            self.wf(),
        ensures
            room == self.has_room(),
    {
        match self.active {
            Stage::Play => self.play.check_room(),
            _ => true,
        }
    }

    /// Wipes the frame buffer and acts on what the screen on show
    /// reported: it is drawn if it goes on, and the next screen is entered
    /// if it is over.
    fn conclude(&mut self, result: StateResult, terminal: &mut Terminal)
        requires
            old(self).play.wf(),
            result != StateResult::Complete ==> old(self).wf(),
            old(terminal).wf(),
        ensures
            final(self).wf(),
            final(terminal).wf(),
            final(self)@ == (if result == StateResult::Complete {
                old(self)@.entered(old(self)@.stage.next())
            } else {
                old(self)@
            }),
            final(terminal)@ == (TerminalView {
                grid: if result == StateResult::Continue {
                    old(self)@.shown_on(blank_grid())
                } else {
                    blank_grid()
                },
                ..old(terminal)@
            }),
    {
        terminal.clear();
        match result {
            StateResult::Continue => {
                match self.active {
                    Stage::Intro => self.intro.render(terminal),
                    Stage::Play => self.play.render(terminal),
                    Stage::Over => self.over.render(terminal),
                }
            },
            StateResult::Complete => {
                self.active = self.active.next();
                match self.active {
                    Stage::Intro => self.intro.init(),
                    Stage::Play => self.play.init(),
                    Stage::Over => self.over.init(),
                }
            },
            StateResult::Exit => {},
        }
    }

    /// One tick of the game, in which a new fruit appears in `spawn`
    /// should the last one be eaten, and in which a frame is sent with the
    /// colour sequences `fg` and `bg`.
    pub fn tick_with(
        &mut self,
        terminal: &mut Terminal,
        spawn: Point,
        fg: &str,
        bg: &str,
    ) -> (result: StateResult)
        requires
            old(self).wf(),
            old(self).has_room(),
            old(terminal).wf(),
            on_board(spawn),
        ensures
            final(self).wf(),
            final(terminal).wf(),
            final(self)@ == old(self)@.ticked(decode(old(terminal)@.pending), spawn),
            result == old(self)@.result_of(decode(old(terminal)@.pending), spawn),
            final(terminal)@ == old(self)@.screen_after(old(terminal)@, spawn, fg@, bg@),
    {
        let result = match self.active {
            Stage::Intro => self.intro.run(terminal),
            Stage::Play => self.play.run_with(terminal, spawn),
            Stage::Over => self.over.run(terminal),
        };
        self.conclude(result, terminal);
        if result == StateResult::Continue {
            terminal.flush_with(fg, bg);
        }
        result
    }

    /// One tick of the game. The screen on show reads the keys pressed
    /// since the last tick; the frame buffer is wiped; if the screen goes
    /// on, it is drawn and the frame is sent to the screen; if it is over,
    /// the next screen of the ring is entered; if the player asked to
    /// leave, nothing more is done. The caller waits before the next tick
    /// after `Continue`, proceeds at once after `Complete`, and stops
    /// after `Exit`.
    pub fn tick(&mut self, terminal: &mut Terminal) -> (result: StateResult)
        requires
            old(self).wf(),
            old(self).has_room(),
            old(terminal).wf(),
        ensures
            final(self).wf(),
            final(terminal).wf(),
            old(self)@.ticks_to(old(terminal)@, final(self)@, final(terminal)@, result),
    {
        let ghost events = decode(terminal@.pending);
        let ghost spawn = start_fruit();
        let result = match self.active {
            Stage::Intro => self.intro.run(terminal),
            Stage::Play => {
                let result = self.play.run(terminal);
                proof {
                    spawn = choose|cell: Point|
                        on_board(cell) && self.play@ == old(self)@.play.ticked(events, cell)
                            && result == old(self)@.play.verdict(events, cell);
                }
                result
            },
            Stage::Over => self.over.run(terminal),
        };
        self.conclude(result, terminal);
        let ghost drawn = terminal@;
        let ghost fg = Seq::<char>::empty();
        let ghost bg = Seq::<char>::empty();
        if result == StateResult::Continue {
            terminal.flush();
            proof {
                let (white, blue): (Seq<char>, Seq<char>) = choose|fg: Seq<char>, bg: Seq<char>|
                    is_foreground(fg) && is_background(bg) && terminal@ == #[trigger] drawn.flushed(
                        fg,
                        bg,
                    );
                fg = white;
                bg = blue;
            }
        }
        assert(terminal@ == old(self)@.screen_after(old(terminal)@, spawn, fg, bg));
        result
    }
}

/// The screens form a ring of three.
pub proof fn law_ring(stage: Stage)
    ensures
        stage.next() != stage,
        stage.next().next() != stage,
        stage.next().next().next() == stage,
{
}

/// A request to leave ends the tick of any screen with `Exit`, whatever
/// follows it among the events: the game stays as it was, the ring does
/// not move and no frame is sent. On the two waiting screens this holds
/// unless a request to go on came before it.
pub proof fn law_quit(
    game: GameView,
    screen: TerminalView,
    before: Seq<InputEvent>,
    after: Seq<InputEvent>,
    spawn: Point,
    fg: Seq<char>,
    bg: Seq<char>,
)
    requires
        decode(screen.pending) == before.push(InputEvent::Quit) + after,
        game.stage == Stage::Play || !before.contains(InputEvent::Fire),
    ensures
        game.result_of(decode(screen.pending), spawn) == StateResult::Exit,
        game.ticked(decode(screen.pending), spawn) == game,
        game.screen_after(screen, spawn, fg, bg) == (TerminalView {
            grid: blank_grid(),
            pending: Seq::empty(),
            ..screen
        }),
{
    if game.stage == Stage::Play {
        law_play_quit(game.play, before, after, spawn);
    } else {
        law_menu_quit(before, after);
    }
}

/// A request to go on takes a waiting screen to the next screen of the
/// ring, unless a request to leave came before it; a round that is
/// entered starts afresh.
pub proof fn law_fire(
    game: GameView,
    before: Seq<InputEvent>,
    after: Seq<InputEvent>,
    spawn: Point,
)
    requires
        game.stage != Stage::Play,
        !before.contains(InputEvent::Quit),
    ensures
        game.result_of(before.push(InputEvent::Fire) + after, spawn) == StateResult::Complete,
        game.ticked(before.push(InputEvent::Fire) + after, spawn).stage == game.stage.next(),
        game.stage == Stage::Intro ==> game.ticked(before.push(InputEvent::Fire) + after, spawn).play
            == game.play.started(),
        game.stage == Stage::Over ==> game.ticked(before.push(InputEvent::Fire) + after, spawn).play
            == game.play,
{
    law_menu_fire(before, after);
}

/// The screen of the round gives way to the banner exactly when a tick
/// takes the last life.
pub proof fn law_round_over(game: GameView, events: Seq<InputEvent>, spawn: Point)
    requires
        game.wf(),
        game.stage == Stage::Play,
        !events.contains(InputEvent::Quit),
    ensures
        game.ticked(events, spawn).stage == Stage::Over <==> game.play.ticked(events, spawn).lives
            == 0,
        game.ticked(events, spawn).stage == Stage::Over || game.ticked(events, spawn).stage
            == Stage::Play,
        game.ticked(events, spawn).play == game.play.ticked(events, spawn),
{
}

} // verus!
