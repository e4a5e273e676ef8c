use snake::consts::TICK_MILLIS;
use snake::game::{Game, Stage};
use snake::menu::{GameIntro, GameOver};
use snake::state::StateResult;
use snake::term::Terminal;
use snake::types::Point;

const HIDE: &str = "\x1b[?25l";
const CLEAR: &str = "\x1b[2J";
const WHITE: &str = "\x1b[38;5;7m";
const BLUE: &str = "\x1b[48;5;4m";

fn terminal_with(keys: &[u8]) -> Terminal {
    let mut terminal = Terminal::new();
    for key in keys {
        terminal.feed(*key);
    }
    terminal
}

fn rows_of(terminal: &Terminal) -> Vec<String> {
    let mut rows = Vec::new();
    for y in 0..24 {
        let mut row = String::new();
        for x in 0..80 {
            row.push(terminal.cell(x, y));
        }
        rows.push(row);
    }
    rows
}

fn blank_rows() -> Vec<String> {
    vec![" ".repeat(80); 24]
}

fn frame_of(rows: &[String], fg: &str, bg: &str) -> String {
    let mut frame = String::new();
    for (y, row) in rows.iter().enumerate() {
        frame.push_str(&format!("\x1b[{};1H{}{}{}", y + 1, fg, bg, row));
    }
    frame
}

fn intro_rows() -> Vec<String> {
    let mut rows = blank_rows();
    rows[15].replace_range(35..44, "S N A K E");
    rows[17].replace_range(30..50, "Press space to start");
    rows
}

fn over_rows() -> Vec<String> {
    let mut rows = blank_rows();
    rows[15].replace_range(31..49, "G A M E    O V E R");
    rows
}

fn start_rows() -> Vec<String> {
    let mut rows = blank_rows();
    rows[0].replace_range(0..7, "LIVES:3");
    rows[0].replace_range(40..47, "SCORE:0");
    rows[20].replace_range(30..31, "*");
    rows
}

/// Ticks of a round without keys until a tick ends the round.
fn play_out(game: &mut Game, terminal: &mut Terminal) -> usize {
    let mut ticks = 0;
    loop {
        assert_eq!(game.stage(), Stage::Play);
        assert!(game.check_room());
        ticks += 1;
        match game.tick_with(terminal, Point { x: 0, y: 0 }, "", "") {
            StateResult::Continue => {},
            StateResult::Complete => return ticks,
            StateResult::Exit => panic!("nobody asked to leave"),
        }
        assert!(ticks < 1000);
    }
}

#[test]
fn frames_are_a_tenth_of_a_second_apart() {
    assert_eq!(TICK_MILLIS, 100);
}

#[test]
fn intro_waits_for_space_or_quit() {
    let mut intro = GameIntro::new();
    intro.init();
    assert_eq!(intro.run(&mut terminal_with(b"")), StateResult::Continue);
    assert_eq!(intro.run(&mut terminal_with(b"wasdx")), StateResult::Continue);
    assert_eq!(intro.run(&mut terminal_with(b" ")), StateResult::Complete);
    assert_eq!(intro.run(&mut terminal_with(b"q")), StateResult::Exit);
    assert_eq!(intro.run(&mut terminal_with(b"ww q")), StateResult::Complete);
    assert_eq!(intro.run(&mut terminal_with(b"wwq ")), StateResult::Exit);
    assert_eq!(intro.run(&mut terminal_with(b"qqq")), StateResult::Exit);
}

#[test]
fn intro_reads_all_keys_of_the_tick() {
    let mut intro = GameIntro::new();
    let mut terminal = terminal_with(b" q");
    assert_eq!(intro.run(&mut terminal), StateResult::Complete);
    assert_eq!(intro.run(&mut terminal), StateResult::Continue);
}

#[test]
fn intro_shows_title_and_prompt() {
    let mut terminal = Terminal::new();
    GameIntro::new().render(&mut terminal);
    assert_eq!(rows_of(&terminal), intro_rows());
    assert_eq!(terminal.cell(35, 15), 'S');
    assert_eq!(terminal.cell(43, 15), 'E');
    assert_eq!(terminal.cell(30, 17), 'P');
    assert_eq!(terminal.cell(49, 17), 't');
}

#[test]
fn game_over_waits_for_space_or_quit() {
    let mut over = GameOver::new();
    over.init();
    assert_eq!(over.run(&mut terminal_with(b"")), StateResult::Continue);
    assert_eq!(over.run(&mut terminal_with(b"dsaw")), StateResult::Continue);
    assert_eq!(over.run(&mut terminal_with(b"a ")), StateResult::Complete);
    assert_eq!(over.run(&mut terminal_with(b"aq")), StateResult::Exit);
    assert_eq!(over.run(&mut terminal_with(b" q")), StateResult::Complete);
    assert_eq!(over.run(&mut terminal_with(b"q ")), StateResult::Exit);
}

#[test]
fn game_over_shows_the_banner() {
    let mut terminal = Terminal::new();
    GameOver::new().render(&mut terminal);
    assert_eq!(rows_of(&terminal), over_rows());
}

#[test]
fn stages_form_a_ring() {
    assert_eq!(Stage::Intro.next(), Stage::Play);
    assert_eq!(Stage::Play.next(), Stage::Over);
    assert_eq!(Stage::Over.next(), Stage::Intro);
}

#[test]
fn new_game_clears_the_screen_and_shows_the_title() {
    let mut terminal = Terminal::new();
    let game = Game::new(&mut terminal);
    assert_eq!(game.stage(), Stage::Intro);
    assert_eq!(terminal.take_output(), format!("{}{}", HIDE, CLEAR));
    assert_eq!(game.play().lives(), 3);
    assert!(game.play().body().is_empty());
    assert!(game.check_room());
}

#[test]
fn tick_draws_and_sends_the_title() {
    let mut terminal = Terminal::new();
    let mut game = Game::new(&mut terminal);
    terminal.take_output();
    assert_eq!(
        game.tick_with(&mut terminal, Point { x: 0, y: 0 }, WHITE, BLUE),
        StateResult::Continue
    );
    assert_eq!(game.stage(), Stage::Intro);
    assert_eq!(rows_of(&terminal), intro_rows());
    assert_eq!(terminal.take_output(), frame_of(&intro_rows(), WHITE, BLUE));
}

#[test]
fn tick_sends_a_frame_white_on_blue_or_plain() {
    let mut terminal = Terminal::new();
    let mut game = Game::new(&mut terminal);
    terminal.take_output();
    assert_eq!(game.tick(&mut terminal), StateResult::Continue);
    let sent = terminal.take_output();
    let rows = intro_rows();
    assert!(
        sent == frame_of(&rows, WHITE, BLUE) || sent == frame_of(&rows, "", "")
            || sent == frame_of(&rows, WHITE, "") || sent == frame_of(&rows, "", BLUE)
    );
}

#[test]
fn space_starts_a_round() {
    let mut terminal = Terminal::new();
    let mut game = Game::new(&mut terminal);
    terminal.take_output();
    terminal.feed(b' ');
    assert_eq!(game.tick(&mut terminal), StateResult::Complete);
    assert_eq!(game.stage(), Stage::Play);
    assert_eq!(game.play().lives(), 3);
    assert_eq!(game.play().score(), 0);
    assert_eq!(game.play().body().len(), 5);
    assert_eq!(*game.play().fruits(), vec![Point { x: 30, y: 20 }]);
    assert_eq!(terminal.take_output(), "");
    assert_eq!(rows_of(&terminal), blank_rows());
}

#[test]
fn round_draws_after_each_move() {
    let mut terminal = Terminal::new();
    let mut game = Game::new(&mut terminal);
    terminal.feed(b' ');
    assert_eq!(game.tick(&mut terminal), StateResult::Complete);
    terminal.take_output();
    assert_eq!(
        game.tick_with(&mut terminal, Point { x: 0, y: 0 }, "", ""),
        StateResult::Continue
    );
    let mut rows = start_rows();
    rows[10].replace_range(6..11, "#####");
    assert_eq!(rows_of(&terminal), rows);
    assert_eq!(terminal.take_output(), frame_of(&rows, "", ""));
    terminal.feed(b's');
    assert_eq!(
        game.tick_with(&mut terminal, Point { x: 0, y: 0 }, "", ""),
        StateResult::Continue
    );
    let mut rows = start_rows();
    rows[10].replace_range(7..11, "####");
    rows[11].replace_range(10..11, "#");
    assert_eq!(rows_of(&terminal), rows);
}

#[test]
fn quit_leaves_from_every_screen() {
    let mut terminal = Terminal::new();
    let mut game = Game::new(&mut terminal);
    terminal.take_output();
    terminal.feed(b'q');
    terminal.feed(b' ');
    assert_eq!(game.tick(&mut terminal), StateResult::Exit);
    assert_eq!(game.stage(), Stage::Intro);
    assert_eq!(terminal.take_output(), "");
    assert_eq!(rows_of(&terminal), blank_rows());

    terminal.feed(b' ');
    assert_eq!(game.tick(&mut terminal), StateResult::Complete);
    assert_eq!(game.tick(&mut terminal), StateResult::Continue);
    terminal.take_output();
    let body = game.play().body().clone();
    terminal.feed(b'w');
    terminal.feed(b'q');
    terminal.feed(b's');
    assert_eq!(game.tick(&mut terminal), StateResult::Exit);
    assert_eq!(game.stage(), Stage::Play);
    assert_eq!(*game.play().body(), body);
    assert_eq!(game.play().direction(), Point::right());
    assert_eq!(terminal.take_output(), "");
    assert_eq!(rows_of(&terminal), blank_rows());

    play_out(&mut game, &mut terminal);
    assert_eq!(game.stage(), Stage::Over);
    terminal.take_output();
    terminal.feed(b'q');
    assert_eq!(game.tick(&mut terminal), StateResult::Exit);
    assert_eq!(game.stage(), Stage::Over);
    assert_eq!(terminal.take_output(), "");
}

#[test]
fn the_ring_goes_round() {
    let mut terminal = Terminal::new();
    let mut game = Game::new(&mut terminal);
    for _ in 0..2 {
        assert_eq!(game.stage(), Stage::Intro);
        assert_eq!(game.tick(&mut terminal), StateResult::Continue);
        assert_eq!(rows_of(&terminal), intro_rows());
        terminal.feed(b' ');
        assert_eq!(game.tick(&mut terminal), StateResult::Complete);
        assert_eq!(game.stage(), Stage::Play);
        assert_eq!(game.play().lives(), 3);
        let ticks = play_out(&mut game, &mut terminal);
        assert_eq!(ticks, 3 * 71);
        assert_eq!(game.stage(), Stage::Over);
        assert_eq!(game.play().lives(), 0);
        assert_eq!(rows_of(&terminal), blank_rows());
        assert_eq!(game.tick(&mut terminal), StateResult::Continue);
        assert_eq!(rows_of(&terminal), over_rows());
        assert_eq!(game.stage(), Stage::Over);
        terminal.feed(b' ');
        assert_eq!(game.tick(&mut terminal), StateResult::Complete);
    }
    assert_eq!(game.stage(), Stage::Intro);
}

#[test]
fn a_round_starts_afresh_each_time() {
    let mut terminal = Terminal::new();
    let mut game = Game::new(&mut terminal);
    terminal.feed(b' ');
    game.tick(&mut terminal);
    play_out(&mut game, &mut terminal);
    terminal.feed(b' ');
    assert_eq!(game.tick(&mut terminal), StateResult::Complete);
    assert_eq!(game.play().lives(), 0);
    terminal.feed(b' ');
    assert_eq!(game.tick(&mut terminal), StateResult::Complete);
    assert_eq!(game.stage(), Stage::Play);
    assert_eq!(game.play().lives(), 3);
    assert_eq!(game.play().score(), 0);
    assert_eq!(game.play().extend(), 0);
    assert_eq!(game.play().body().len(), 5);
}
