use pinentry_zellij::backend::{
    write_color, AnsiBackend, AnsiBackendError, ClearType, Color, Position, BOLD, DIM, ITALIC,
    REVERSED, SLOW_BLINK, UNDERLINED,
};

#[test]
fn new_backend_size() {
    let backend = AnsiBackend::new(40, 10);
    assert_eq!(backend.size(), (40, 10));
}

#[test]
fn draw_plain_cells() {
    let mut backend = AnsiBackend::new(5, 1);
    backend.draw_cell(0, 0, "a", None, None, 0);
    backend.draw_cell(1, 0, "b", None, None, 0);
    let ansi = backend.to_ansi();
    assert!(ansi.contains("ab   "));
    assert_eq!(ansi, "\x1b[H\x1b[2Jab   ");
}

#[test]
fn draw_styled_cell() {
    let mut backend = AnsiBackend::new(3, 1);
    backend.draw_cell(0, 0, "X", Some(Color::Red), None, BOLD);
    let ansi = backend.to_ansi();
    assert!(ansi.contains("\x1b[1;31m"));
    assert!(ansi.contains("X"));
    assert!(ansi.contains("\x1b[0m"));
    assert_eq!(ansi, "\x1b[H\x1b[2J\x1b[1;31mX\x1b[0m  ");
}

#[test]
fn draw_rgb_color() {
    let mut backend = AnsiBackend::new(3, 1);
    backend.draw_cell(0, 0, "R", Some(Color::Rgb(255, 128, 0)), None, 0);
    let ansi = backend.to_ansi();
    assert!(ansi.contains("38;2;255;128;0"));
}

#[test]
fn draw_indexed_color() {
    let mut backend = AnsiBackend::new(3, 1);
    backend.draw_cell(0, 0, "I", None, Some(Color::Indexed(42)), 0);
    let ansi = backend.to_ansi();
    assert!(ansi.contains("48;5;42"));
}

#[test]
fn clear_resets_cells() {
    let mut backend = AnsiBackend::new(3, 1);
    backend.draw_cell(0, 0, "X", None, None, 0);
    backend.clear();
    let ansi = backend.to_ansi();
    assert!(!ansi.contains("X"));
}

#[test]
fn cursor_operations() {
    let mut backend = AnsiBackend::new(10, 10);
    backend.show_cursor();
    assert!(backend.cursor_visible());
    backend.hide_cursor();
    assert!(!backend.cursor_visible());
    backend.set_cursor_position(Position { x: 5, y: 3 });
    assert_eq!(backend.get_cursor_position(), Position { x: 5, y: 3 });
}

#[test]
fn multiline_output() {
    let backend = AnsiBackend::new(3, 2);
    let ansi = backend.to_ansi();
    assert!(ansi.contains("\r\n"));
    assert_eq!(ansi, "\x1b[H\x1b[2J   \r\n   ");
}

#[test]
fn out_of_bounds_draw_ignored() {
    let mut backend = AnsiBackend::new(3, 1);
    backend.draw_cell(10, 10, "X", None, None, 0);
    backend.draw_cell(3, 0, "X", None, None, 0);
    assert_eq!(backend.to_ansi(), "\x1b[H\x1b[2J   ");
}

#[test]
fn bg_color() {
    let mut backend = AnsiBackend::new(3, 1);
    backend.draw_cell(0, 0, "B", None, Some(Color::Blue), 0);
    let ansi = backend.to_ansi();
    assert!(ansi.contains("44"));
}

#[test]
fn modifier_dim_italic_underline_reversed() {
    let mut backend = AnsiBackend::new(3, 1);
    backend.draw_cell(0, 0, "M", None, None, DIM | ITALIC | UNDERLINED | REVERSED);
    let ansi = backend.to_ansi();
    assert!(ansi.contains("\x1b[2;3;4;7mM\x1b[0m"));
}

#[test]
fn window_size() {
    let backend = AnsiBackend::new(80, 24);
    let (cells, pixels) = backend.window_size();
    assert_eq!(cells, (80, 24));
    assert_eq!(pixels, (640, 384));
}

#[test]
fn clear_region_all() {
    let mut backend = AnsiBackend::new(3, 1);
    backend.draw_cell(0, 0, "X", None, None, 0);
    backend.clear_region(ClearType::All);
    let ansi = backend.to_ansi();
    assert!(!ansi.contains("X"));
}

#[test]
fn clear_region_other_is_noop() {
    let mut backend = AnsiBackend::new(3, 1);
    backend.draw_cell(0, 0, "X", None, None, 0);
    backend.clear_region(ClearType::AfterCursor);
    let ansi = backend.to_ansi();
    assert!(ansi.contains("X"));
}

#[test]
fn color_reset_produces_no_style_sgr() {
    let mut backend = AnsiBackend::new(3, 1);
    backend.draw_cell(0, 0, "R", Some(Color::Reset), Some(Color::Reset), 0);
    let ansi = backend.to_ansi();
    assert!(!ansi.contains("\x1b[0m"), "should not have style reset");
}

#[test]
fn all_named_colors() {
    let colors = [
        (Color::Black, "30"),
        (Color::Red, "31"),
        (Color::Green, "32"),
        (Color::Yellow, "33"),
        (Color::Blue, "34"),
        (Color::Magenta, "35"),
        (Color::Cyan, "36"),
        (Color::Gray, "37"),
        (Color::DarkGray, "90"),
        (Color::LightRed, "91"),
        (Color::LightGreen, "92"),
        (Color::LightYellow, "93"),
        (Color::LightBlue, "94"),
        (Color::LightMagenta, "95"),
        (Color::LightCyan, "96"),
        (Color::White, "97"),
    ];
    for (color, code) in colors {
        let mut backend = AnsiBackend::new(1, 1);
        backend.draw_cell(0, 0, "C", Some(color), None, 0);
        let ansi = backend.to_ansi();
        assert_eq!(ansi, format!("\x1b[H\x1b[2J\x1b[{code}mC\x1b[0m"), "{color:?}");
    }
}

#[test]
fn rgb_bg_color() {
    let mut backend = AnsiBackend::new(3, 1);
    backend.draw_cell(0, 0, "G", None, Some(Color::Rgb(10, 20, 30)), 0);
    let ansi = backend.to_ansi();
    assert!(ansi.contains("48;2;10;20;30"));
}

#[test]
fn indexed_fg_color() {
    let mut backend = AnsiBackend::new(3, 1);
    backend.draw_cell(0, 0, "I", Some(Color::Indexed(200)), None, 0);
    let ansi = backend.to_ansi();
    assert!(ansi.contains("38;5;200"));
}

// ---- further cases

#[test]
fn write_color_codes() {
    let mut s = String::new();
    write_color(&mut s, Color::Cyan, false);
    assert_eq!(s, "36");
    let mut s = String::new();
    write_color(&mut s, Color::Cyan, true);
    assert_eq!(s, "46");
    let mut s = String::new();
    write_color(&mut s, Color::Reset, true);
    assert_eq!(s, "");
    let mut s = String::from("x");
    write_color(&mut s, Color::Rgb(1, 2, 3), true);
    assert_eq!(s, "x48;2;1;2;3");
}

#[test]
fn full_style_order() {
    let mut backend = AnsiBackend::new(1, 1);
    backend.draw_cell(0, 0, "Z", Some(Color::White), Some(Color::Black), BOLD | REVERSED);
    assert_eq!(backend.to_ansi(), "\x1b[H\x1b[2J\x1b[1;7;97;40mZ\x1b[0m");
}

#[test]
fn blink_only_gives_empty_sgr() {
    let mut backend = AnsiBackend::new(1, 1);
    backend.draw_cell(0, 0, "b", None, None, SLOW_BLINK);
    assert_eq!(backend.to_ansi(), "\x1b[H\x1b[2J\x1b[mb\x1b[0m");
}

#[test]
fn long_symbol_is_dropped() {
    let mut backend = AnsiBackend::new(2, 1);
    backend.draw_cell(0, 0, "abcde", None, None, 0);
    backend.draw_cell(1, 0, "€", None, None, 0);
    assert_eq!(backend.to_ansi(), "\x1b[H\x1b[2J€");
}

#[test]
fn error_message() {
    assert_eq!(AnsiBackendError.message(), "AnsiBackend error");
}
