use greg_os::vga_buffer::{
    center, cursor_end_byte, cursor_position_bytes, cursor_start_byte, print_logo, Color,
    ColorCode, Writer, BUFFER_HEIGHT, BUFFER_WIDTH,
};

fn fresh_writer() -> Writer {
    Writer::new(ColorCode::new(Color::Yellow, Color::Black))
}

#[test]
fn color_code_packs_nibbles() {
    assert_eq!(ColorCode::new(Color::Yellow, Color::Black).0, 0x0E);
    assert_eq!(ColorCode::new(Color::White, Color::Blue).0, 0x1F);
    assert_eq!(ColorCode::new(Color::Black, Color::White).0, 0xF0);
}

#[test]
fn write_byte_fills_bottom_row() {
    let mut w = fresh_writer();
    w.write_byte(b'H');
    w.write_byte(b'i');
    assert_eq!(w.ascii_at(BUFFER_HEIGHT - 1, 0), b'H');
    assert_eq!(w.ascii_at(BUFFER_HEIGHT - 1, 1), b'i');
    assert_eq!(w.column_position(), 2);
}

#[test]
fn newline_scrolls_up() {
    let mut w = fresh_writer();
    w.write_string("ab");
    w.write_byte(b'\n');
    assert_eq!(w.ascii_at(BUFFER_HEIGHT - 2, 0), b'a');
    assert_eq!(w.ascii_at(BUFFER_HEIGHT - 2, 1), b'b');
    assert_eq!(w.ascii_at(BUFFER_HEIGHT - 1, 0), b' ');
    assert_eq!(w.column_position(), 0);
}

#[test]
fn long_line_wraps() {
    let mut w = fresh_writer();
    for _ in 0..BUFFER_WIDTH {
        w.write_byte(b'x');
    }
    // The row is full: the next byte forces a scroll and lands at column 0.
    w.write_byte(b'y');
    assert_eq!(w.ascii_at(BUFFER_HEIGHT - 2, BUFFER_WIDTH - 1), b'x');
    assert_eq!(w.ascii_at(BUFFER_HEIGHT - 1, 0), b'y');
    assert_eq!(w.column_position(), 1);
}

#[test]
fn test_println_simple() {
    let mut w = fresh_writer();
    w.write_string("test_println_simple output\n");
    assert_eq!(w.ascii_at(BUFFER_HEIGHT - 2, 0), b't');
}

#[test]
fn test_println_many() {
    let mut w = fresh_writer();
    for _ in 0..200 {
        w.write_string("test_println_many output\n");
    }
    assert_eq!(w.ascii_at(BUFFER_HEIGHT - 2, 0), b't');
}

#[test]
fn test_println_output() {
    let s = "Some test string that fits on a single line";
    let mut w = fresh_writer();
    w.write_string("\n");
    w.write_string(s);
    w.write_string("\n");
    for (i, c) in s.chars().enumerate() {
        let screen_char = w.ascii_at(BUFFER_HEIGHT - 2, i);
        assert_eq!(char::from(screen_char), c);
    }
}

#[test]
fn clear_screen_blanks_everything() {
    let mut w = fresh_writer();
    w.write_string("something\nsomething else\n");
    w.clear_screen();
    for row in 0..BUFFER_HEIGHT {
        for col in 0..BUFFER_WIDTH {
            assert_eq!(w.ascii_at(row, col), b' ');
        }
    }
}

#[test]
fn center_pads_to_the_middle() {
    let mut w = fresh_writer();
    center(&mut w, "abcd");
    // Padding is 40 - 4 / 2 = 38 spaces, then the text.
    assert_eq!(w.ascii_at(BUFFER_HEIGHT - 1, 37), b' ');
    assert_eq!(w.ascii_at(BUFFER_HEIGHT - 1, 38), b'a');
    assert_eq!(w.ascii_at(BUFFER_HEIGHT - 1, 41), b'd');
}

#[test]
fn pre_write_line_inserts_above() {
    let mut w = fresh_writer();
    w.write_string("bottom");
    w.pre_write_line("top line");
    // The new top row holds the inserted text, blanks after it.
    assert_eq!(w.ascii_at(0, 0), b't');
    assert_eq!(w.ascii_at(0, 7), b'e');
    assert_eq!(w.ascii_at(0, 8), b' ');
    // The old bottom row moved down is gone off-screen; what was row 23
    // is now row 24.
    assert_eq!(w.ascii_at(BUFFER_HEIGHT - 1, 0), b' ');
    assert_eq!(w.column_position(), 0);
}

#[test]
fn logo_screen_layout() {
    let mut w = fresh_writer();
    print_logo(&mut w, "2023-01-02 3:04:05");
    // The framed logo text sits on the row that later scrolled to 9:
    // border, margin, then the six logo bytes.
    assert_eq!(w.ascii_at(9, 35), 0xB6);
    assert_eq!(w.ascii_at(9, 36), b' ');
    assert_eq!(w.ascii_at(9, 37), b'G');
    assert_eq!(w.ascii_at(9, 38), b'r');
    assert_eq!(w.ascii_at(9, 39), b'e');
    assert_eq!(w.ascii_at(9, 40), b'g');
    assert_eq!(w.ascii_at(9, 41), 0x01);
    assert_eq!(w.ascii_at(9, 42), b'S');
    assert_eq!(w.ascii_at(9, 43), b' ');
    assert_eq!(w.ascii_at(9, 44), 0xC7);
    // Box corners around it.
    assert_eq!(w.ascii_at(7, 35), 0xC9);
    assert_eq!(w.ascii_at(7, 44), 0xBB);
    assert_eq!(w.ascii_at(11, 35), 0xC8);
    assert_eq!(w.ascii_at(11, 44), 0xBC);
    // The prompt line, centered in yellow.
    assert_eq!(w.ascii_at(15, 26), b'<');
    assert_eq!(w.ascii_at(15, 54), b'>');
    assert_eq!(w.color_at(15, 26), ColorCode::new(Color::Yellow, Color::Black));
    // The caption, centered in magenta on the bottom row.
    let pad = 40 - 18 / 2;
    assert_eq!(w.ascii_at(BUFFER_HEIGHT - 1, pad), b'2');
    assert_eq!(
        w.color_at(BUFFER_HEIGHT - 1, pad),
        ColorCode::new(Color::Magenta, Color::Black)
    );
    // The active color is left at yellow.
    assert_eq!(w.color_code(), ColorCode::new(Color::Yellow, Color::Black));
}

#[test]
fn cursor_bytes_encode_position() {
    let (low, high) = cursor_position_bytes(5, 3);
    assert_eq!(low as usize + 256 * high as usize, 5 + 3 * BUFFER_WIDTH);
    let (low, high) = cursor_position_bytes(79, 24);
    assert_eq!(low as usize + 256 * high as usize, 79 + 24 * BUFFER_WIDTH);
}

#[test]
fn cursor_shape_bytes() {
    assert_eq!(cursor_start_byte(0xFF), 0xC1);
    assert_eq!(cursor_end_byte(0xFF), 0xE2);
    assert_eq!(cursor_start_byte(0x00), 0x01);
    assert_eq!(cursor_end_byte(0x00), 0x02);
}
