use tdos::qemu::QemuExitCode;
use tdos::vga_buffer::{Color, ColorCode, ScreenChar, Writer, BUFFER_HEIGHT, BUFFER_WIDTH};

fn fresh_writer() -> Writer {
    Writer::new(ColorCode::new(Color::Yellow, Color::Black))
}

fn boot_color() -> ColorCode {
    ColorCode::new(Color::Yellow, Color::Black)
}

fn write_line(w: &mut Writer, s: &str) {
    w.write_string(s);
    w.write_byte(b'\n');
}

fn row_text(w: &Writer, row: usize, len: usize) -> Vec<u8> {
    let mut out = Vec::new();
    let mut col: usize = 0;
    while col < len {
        out.push(w.read_cell(row, col).character);
        col += 1;
    }
    out
}

#[test]
fn trivial_assertion() {
    assert_eq!(1, 1);
}

#[test]
fn test_println_simple() {
    let mut w = fresh_writer();
    write_line(&mut w, "test_println_simple output");
}

#[test]
fn test_println_many() {
    let mut w = fresh_writer();
    for _ in 0..300 {
        write_line(&mut w, "test_println_simple output");
    }
}

#[test]
fn test_println_output() {
    let mut w = fresh_writer();
    let s = "foo bar baz";
    write_line(&mut w, s);
    for (i, c) in s.chars().enumerate() {
        let screen_char = w.read_cell(BUFFER_HEIGHT - 2, i);
        assert_eq!(char::from(screen_char.character), c);
    }
}

#[test]
fn round_trip_bottom_row() {
    let mut w = fresh_writer();
    let s = "hello, world";
    w.write_string(s);
    for (i, b) in s.bytes().enumerate() {
        let cell = w.read_cell(BUFFER_HEIGHT - 1, i);
        assert_eq!(cell.character, b);
        assert_eq!(cell.color_code, boot_color());
    }
    assert_eq!(w.read_cell(BUFFER_HEIGHT - 1, s.len()).character, 0x20);
    assert_eq!(w.column(), s.len());
}

#[test]
fn wrap_scrolls_once() {
    let mut w = fresh_writer();
    let mut long = String::new();
    for i in 0..100 {
        long.push((b'a' + (i % 26) as u8) as char);
    }
    w.write_string(&long);
    let bytes = long.as_bytes();
    assert_eq!(row_text(&w, BUFFER_HEIGHT - 2, BUFFER_WIDTH), bytes[..BUFFER_WIDTH].to_vec());
    assert_eq!(row_text(&w, BUFFER_HEIGHT - 1, 20), bytes[BUFFER_WIDTH..].to_vec());
    assert_eq!(w.column(), 20);
}

#[test]
fn scroll_keeps_most_recent_lines() {
    let mut w = fresh_writer();
    for i in 0..30 {
        let line = format!("line{}", i);
        write_line(&mut w, &line);
    }
    // the 30th line just scrolled away from the bottom row, which is blank
    assert_eq!(row_text(&w, BUFFER_HEIGHT - 1, 6), b"      ".to_vec());
    assert_eq!(w.column(), 0);
    // rows above hold the most recent HEIGHT - 1 lines in order
    assert_eq!(row_text(&w, BUFFER_HEIGHT - 2, 6), b"line29".to_vec());
    assert_eq!(row_text(&w, 0, 5), b"line6".to_vec());
    assert_eq!(row_text(&w, 1, 5), b"line7".to_vec());
}

#[test]
fn few_lines_leave_top_blank() {
    let mut w = fresh_writer();
    write_line(&mut w, "one");
    write_line(&mut w, "two");
    write_line(&mut w, "three");
    assert_eq!(row_text(&w, BUFFER_HEIGHT - 4, 3), b"one".to_vec());
    assert_eq!(row_text(&w, BUFFER_HEIGHT - 3, 3), b"two".to_vec());
    assert_eq!(row_text(&w, BUFFER_HEIGHT - 2, 5), b"three".to_vec());
    for row in 0..BUFFER_HEIGHT - 4 {
        assert_eq!(row_text(&w, row, BUFFER_WIDTH), vec![0x20; BUFFER_WIDTH]);
    }
}

#[test]
fn unprintable_bytes_become_placeholder() {
    let mut w = fresh_writer();
    w.write_string("a\tb");
    assert_eq!(w.read_cell(BUFFER_HEIGHT - 1, 0).character, b'a');
    assert_eq!(w.read_cell(BUFFER_HEIGHT - 1, 1).character, 0xfe);
    assert_eq!(w.read_cell(BUFFER_HEIGHT - 1, 2).character, b'b');
    // a two-byte encoded character is two unprintable bytes, so two glyphs
    let mut w2 = fresh_writer();
    w2.write_string("\u{00e9}");
    assert_eq!(w2.read_cell(BUFFER_HEIGHT - 1, 0).character, 0xfe);
    assert_eq!(w2.read_cell(BUFFER_HEIGHT - 1, 1).character, 0xfe);
}

#[test]
fn color_change_keeps_old_cells() {
    let mut w = fresh_writer();
    w.write_string("ab");
    let red_on_black = ColorCode::new(Color::Red, Color::Black);
    w.set_color(red_on_black);
    w.write_string("cd");
    assert_eq!(w.read_cell(BUFFER_HEIGHT - 1, 0).color_code, boot_color());
    assert_eq!(w.read_cell(BUFFER_HEIGHT - 1, 1).color_code, boot_color());
    assert_eq!(w.read_cell(BUFFER_HEIGHT - 1, 2).color_code, red_on_black);
    assert_eq!(w.read_cell(BUFFER_HEIGHT - 1, 3).color_code, red_on_black);
    assert_eq!(w.read_cell(BUFFER_HEIGHT - 1, 0).character, b'a');
    assert_eq!(w.read_cell(BUFFER_HEIGHT - 1, 2).character, b'c');
}

#[test]
fn new_line_scrolls_and_resets_column() {
    let mut w = fresh_writer();
    w.write_byte(b'x');
    assert_eq!(w.column(), 1);
    w.new_line();
    assert_eq!(w.column(), 0);
    assert_eq!(w.read_cell(BUFFER_HEIGHT - 2, 0).character, b'x');
    assert_eq!(w.read_cell(BUFFER_HEIGHT - 1, 0).character, 0x20);
}

#[test]
fn cell_codec_layout() {
    let yellow_on_black = ScreenChar { character: b'A', color_code: boot_color() };
    assert_eq!(yellow_on_black.encode(), (0x41, 0x0e));
    let white_on_blue = ScreenChar {
        character: b'!',
        color_code: ColorCode::new(Color::White, Color::Blue),
    };
    assert_eq!(white_on_blue.encode(), (0x21, 0x1f));
    let back = ScreenChar::decode((0x41, 0x0e));
    assert_eq!(back, yellow_on_black);
}

#[test]
fn writer_print_delegates() {
    let mut w = fresh_writer();
    tdos::vga_buffer::_print(&mut w, "hi");
    assert_eq!(row_text(&w, BUFFER_HEIGHT - 1, 2), b"hi".to_vec());
}

#[test]
fn init_gives_empty_console() {
    let (w, serial) = tdos::init();
    for row in 0..BUFFER_HEIGHT {
        assert_eq!(row_text(&w, row, BUFFER_WIDTH), vec![0x20; BUFFER_WIDTH]);
    }
    assert_eq!(w.column(), 0);
    assert_eq!(w.read_cell(0, 0).color_code, boot_color());
    assert_eq!(serial.transcript(), "");
}

#[test]
fn end_to_end_scenario() {
    let mut w = fresh_writer();
    w.write_string("foo bar baz");
    assert_eq!(row_text(&w, BUFFER_HEIGHT - 1, 11), b"foo bar baz".to_vec());

    let mut w2 = fresh_writer();
    for _ in 0..300 {
        w2.write_string("x");
        w2.write_byte(b'\n');
    }
    assert_eq!(row_text(&w2, BUFFER_HEIGHT - 2, 2), b"x ".to_vec());
    assert_eq!(row_text(&w2, BUFFER_HEIGHT - 1, 1), b" ".to_vec());
    assert_eq!(w2.column(), 0);
}

#[test]
fn exit_codes_distinct_from_host_failure() {
    assert_eq!(QemuExitCode::Success.code(), 0x10);
    assert_eq!(QemuExitCode::Failed.code(), 0x11);
    assert_eq!(QemuExitCode::Success.host_observation(), 0x21);
    assert_eq!(QemuExitCode::Failed.host_observation(), 0x23);
    assert_ne!(QemuExitCode::Success.host_observation(), 1);
    assert_ne!(QemuExitCode::Failed.host_observation(), 1);
}
