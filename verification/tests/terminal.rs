use snake::consts::{SCREEN_HEIGHT, SCREEN_WIDTH};
use snake::term::{key_to_event, InputEvent, Terminal};
use snake::text::{decimal_text, digit};

const HIDE: &str = "\x1b[?25l";
const SHOW: &str = "\x1b[?25h";
const CLEAR: &str = "\x1b[2J";
const WHITE: &str = "\x1b[38;5;7m";
const BLUE: &str = "\x1b[48;5;4m";

fn feed_all(terminal: &mut Terminal, keys: &[u8]) {
    for key in keys {
        terminal.feed(*key);
    }
}

fn row_of(terminal: &Terminal, y: i32) -> String {
    let mut row = String::new();
    for x in 0..SCREEN_WIDTH {
        row.push(terminal.cell(x as i32, y));
    }
    row
}

fn frame_of(terminal: &Terminal, fg: &str, bg: &str) -> String {
    let mut frame = String::new();
    for y in 0..SCREEN_HEIGHT {
        frame.push_str(&format!("\x1b[{};1H", y + 1));
        frame.push_str(fg);
        frame.push_str(bg);
        frame.push_str(&row_of(terminal, y as i32));
    }
    frame
}

#[test]
fn screen_is_eighty_by_twenty_four() {
    assert_eq!(SCREEN_WIDTH, 80);
    assert_eq!(SCREEN_HEIGHT, 24);
}

#[test]
fn new_terminal_is_blank_and_hides_the_cursor() {
    let mut terminal = Terminal::new();
    for y in 0..SCREEN_HEIGHT {
        assert_eq!(row_of(&terminal, y as i32), " ".repeat(SCREEN_WIDTH));
    }
    assert_eq!(terminal.take_output(), HIDE);
    assert!(terminal.events().is_empty());
}

#[test]
fn keys_map_to_events() {
    assert_eq!(key_to_event(b'w'), Some(InputEvent::Up));
    assert_eq!(key_to_event(b's'), Some(InputEvent::Down));
    assert_eq!(key_to_event(b'a'), Some(InputEvent::Left));
    assert_eq!(key_to_event(b'd'), Some(InputEvent::Right));
    assert_eq!(key_to_event(b'q'), Some(InputEvent::Quit));
    assert_eq!(key_to_event(b' '), Some(InputEvent::Fire));
    assert_eq!(key_to_event(b'W'), None);
    assert_eq!(key_to_event(b'x'), None);
    assert_eq!(key_to_event(0), None);
    assert_eq!(key_to_event(27), None);
    assert_eq!(key_to_event(255), None);
}

#[test]
fn events_come_in_the_order_of_the_keys() {
    let mut terminal = Terminal::new();
    feed_all(&mut terminal, b"wasdq ");
    assert_eq!(
        terminal.events(),
        vec![
            InputEvent::Up,
            InputEvent::Left,
            InputEvent::Down,
            InputEvent::Right,
            InputEvent::Quit,
            InputEvent::Fire,
        ]
    );
}

#[test]
fn keys_without_a_meaning_are_dropped() {
    let mut terminal = Terminal::new();
    feed_all(&mut terminal, b"xwy\x1b[Az d\n");
    assert_eq!(
        terminal.events(),
        vec![InputEvent::Up, InputEvent::Fire, InputEvent::Right]
    );
}

#[test]
fn events_are_read_once() {
    let mut terminal = Terminal::new();
    feed_all(&mut terminal, b"ww");
    assert_eq!(terminal.events(), vec![InputEvent::Up, InputEvent::Up]);
    assert!(terminal.events().is_empty());
    terminal.feed(b'q');
    assert_eq!(terminal.events(), vec![InputEvent::Quit]);
}

#[test]
fn draw_changes_one_cell() {
    let mut terminal = Terminal::new();
    terminal.draw(3, 2, '#');
    for y in 0..SCREEN_HEIGHT as i32 {
        for x in 0..SCREEN_WIDTH as i32 {
            let expected = if x == 3 && y == 2 { '#' } else { ' ' };
            assert_eq!(terminal.cell(x, y), expected);
        }
    }
}

#[test]
fn draw_reaches_the_corners() {
    let mut terminal = Terminal::new();
    terminal.draw(0, 0, 'a');
    terminal.draw(79, 0, 'b');
    terminal.draw(0, 23, 'c');
    terminal.draw(79, 23, 'd');
    assert_eq!(terminal.cell(0, 0), 'a');
    assert_eq!(terminal.cell(79, 0), 'b');
    assert_eq!(terminal.cell(0, 23), 'c');
    assert_eq!(terminal.cell(79, 23), 'd');
}

#[test]
fn later_draw_wins() {
    let mut terminal = Terminal::new();
    terminal.draw(10, 10, '#');
    terminal.draw(10, 10, '*');
    assert_eq!(terminal.cell(10, 10), '*');
}

#[test]
fn write_lays_text_over_a_row() {
    let mut terminal = Terminal::new();
    terminal.draw(4, 3, '<');
    terminal.draw(5, 3, 'x');
    terminal.draw(10, 3, '>');
    terminal.write(5, 3, "hello");
    let mut expected = " ".repeat(SCREEN_WIDTH);
    expected.replace_range(4..11, "<hello>");
    assert_eq!(row_of(&terminal, 3), expected);
    assert_eq!(row_of(&terminal, 2), " ".repeat(SCREEN_WIDTH));
    assert_eq!(row_of(&terminal, 4), " ".repeat(SCREEN_WIDTH));
}

#[test]
fn write_fits_up_to_the_last_column() {
    let mut terminal = Terminal::new();
    terminal.write(77, 23, "end");
    assert_eq!(terminal.cell(76, 23), ' ');
    assert_eq!(terminal.cell(77, 23), 'e');
    assert_eq!(terminal.cell(78, 23), 'n');
    assert_eq!(terminal.cell(79, 23), 'd');
    terminal.write(0, 0, "");
    assert_eq!(row_of(&terminal, 0), " ".repeat(SCREEN_WIDTH));
}

#[test]
fn write_counts_characters_not_bytes() {
    let mut terminal = Terminal::new();
    terminal.write(78, 1, "\u{e9}\u{1f34e}");
    assert_eq!(terminal.cell(78, 1), '\u{e9}');
    assert_eq!(terminal.cell(79, 1), '\u{1f34e}');
}

#[test]
fn clear_blanks_every_cell() {
    let mut terminal = Terminal::new();
    terminal.write(0, 0, "LIVES:3");
    terminal.draw(79, 23, '#');
    terminal.feed(b'w');
    terminal.clear();
    for y in 0..SCREEN_HEIGHT {
        assert_eq!(row_of(&terminal, y as i32), " ".repeat(SCREEN_WIDTH));
    }
    assert_eq!(terminal.take_output(), HIDE);
    assert_eq!(terminal.events(), vec![InputEvent::Up]);
}

#[test]
fn flush_with_sends_every_row_after_moving_the_cursor() {
    let mut terminal = Terminal::new();
    terminal.take_output();
    terminal.write(2, 0, "top");
    terminal.draw(79, 23, '#');
    terminal.flush_with(WHITE, BLUE);
    let mut expected = String::new();
    for y in 0..24 {
        let mut row = " ".repeat(80);
        if y == 0 {
            row.replace_range(2..5, "top");
        }
        if y == 23 {
            row.replace_range(79..80, "#");
        }
        expected.push_str(&format!("\x1b[{};1H\x1b[38;5;7m\x1b[48;5;4m{}", y + 1, row));
    }
    assert_eq!(terminal.take_output(), expected);
    assert_eq!(terminal.cell(2, 0), 't');
}

#[test]
fn flush_with_appends_to_what_was_sent() {
    let mut terminal = Terminal::new();
    terminal.flush_with("", "");
    let sent = terminal.take_output();
    assert_eq!(sent, format!("{}{}", HIDE, frame_of(&terminal, "", "")));
    assert!(sent.starts_with("\x1b[?25l\x1b[1;1H    "));
    assert!(sent.contains("\x1b[9;1H "));
    assert!(sent.contains("\x1b[10;1H "));
    assert!(sent.contains("\x1b[24;1H "));
    assert!(!sent.contains("\x1b[25;1H"));
    assert!(!sent.contains("\x1b[0;1H"));
}

#[test]
fn flush_sends_the_frame_white_on_blue_or_plain() {
    let mut terminal = Terminal::new();
    terminal.take_output();
    terminal.write(30, 17, "Press space to start");
    terminal.flush();
    let sent = terminal.take_output();
    let coloured = frame_of(&terminal, WHITE, BLUE);
    let plain = frame_of(&terminal, "", "");
    let white_only = frame_of(&terminal, WHITE, "");
    let blue_only = frame_of(&terminal, "", BLUE);
    assert!(sent == coloured || sent == plain || sent == white_only || sent == blue_only);
    assert!(sent.contains("Press space to start"));
}

#[test]
fn flush_keeps_the_frame_buffer() {
    let mut terminal = Terminal::new();
    terminal.draw(1, 1, '*');
    terminal.flush();
    assert_eq!(terminal.cell(1, 1), '*');
    terminal.take_output();
    terminal.flush_with("", "");
    let first = terminal.take_output();
    terminal.flush_with("", "");
    assert_eq!(terminal.take_output(), first);
}

#[test]
fn clear_screen_sends_the_sequence() {
    let mut terminal = Terminal::new();
    terminal.take_output();
    terminal.draw(0, 0, '#');
    terminal.clear_screen();
    assert_eq!(terminal.take_output(), CLEAR);
    assert_eq!(terminal.cell(0, 0), '#');
}

#[test]
fn restore_clears_and_shows_the_cursor_at_home() {
    let mut terminal = Terminal::new();
    terminal.restore();
    assert_eq!(
        terminal.take_output(),
        format!("{}{}{}{}", HIDE, CLEAR, "\x1b[1;1H", SHOW)
    );
}

#[test]
fn take_output_empties_what_was_sent() {
    let mut terminal = Terminal::new();
    assert_eq!(terminal.take_output(), HIDE);
    assert_eq!(terminal.take_output(), "");
    terminal.clear_screen();
    terminal.clear_screen();
    assert_eq!(terminal.take_output(), "\x1b[2J\x1b[2J");
}

#[test]
fn decimal_text_writes_numerals() {
    assert_eq!(decimal_text(0), "0");
    assert_eq!(decimal_text(7), "7");
    assert_eq!(decimal_text(9), "9");
    assert_eq!(decimal_text(10), "10");
    assert_eq!(decimal_text(123), "123");
    assert_eq!(decimal_text(1000), "1000");
    assert_eq!(decimal_text(2147483647), "2147483647");
    assert_eq!(decimal_text(u32::MAX), "4294967295");
}

#[test]
fn digit_gives_the_character() {
    let expected = ['0', '1', '2', '3', '4', '5', '6', '7', '8', '9'];
    for d in 0..10u32 {
        assert_eq!(digit(d), expected[d as usize]);
    }
}
