use custom_os::vga_buffer::{Color, ColorCode, ScreenChar, Writer};

const HEIGHT: usize = 25;
const WIDTH: usize = 80;

fn default_writer() -> Writer {
    Writer::new(Color::Yellow, Color::Black)
}

fn blank(color: ColorCode) -> ScreenChar {
    ScreenChar {
        ascii_char: b' ',
        color_code: color,
    }
}

#[test]
fn color_code_packs_background_and_foreground() {
    assert_eq!(ColorCode::new(Color::Yellow, Color::Black).0, 0x0E);
    assert_eq!(ColorCode::new(Color::White, Color::Blue).0, 0x1F);
    assert_eq!(ColorCode::new(Color::Black, Color::Black).0, 0x00);
    assert_eq!(ColorCode::new(Color::LightGray, Color::Red).0, 0x47);
}

#[test]
fn color_indices_follow_the_palette() {
    assert_eq!(Color::Black.index(), 0);
    assert_eq!(Color::Cyan.index(), 3);
    assert_eq!(Color::Yellow.index(), 14);
    assert_eq!(Color::White.index(), 15);
}

#[test]
fn fresh_writer_is_blank() {
    let w = default_writer();
    let color = w.color();
    assert_eq!(w.column(), 0);
    for row in 0..HEIGHT {
        for col in 0..WIDTH {
            assert_eq!(w.cell_at(row, col), blank(color));
        }
    }
}

#[test]
fn printable_byte_lands_with_current_color() {
    let mut w = default_writer();
    let color = w.color();
    w.write_byte(b'A');
    assert_eq!(
        w.cell_at(HEIGHT - 1, 0),
        ScreenChar {
            ascii_char: b'A',
            color_code: color,
        }
    );
    assert_eq!(w.column(), 1);
    w.write_byte(b'~');
    assert_eq!(
        w.cell_at(HEIGHT - 1, 1),
        ScreenChar {
            ascii_char: b'~',
            color_code: color,
        }
    );
    assert_eq!(w.column(), 2);
}

#[test]
fn written_cell_pairs_character_and_color_atomically() {
    let mut w = default_writer();
    let color = w.color();
    w.write_byte(b'Q');
    let cell = w.cell_at(HEIGHT - 1, 0);
    assert_eq!(cell.ascii_char, b'Q');
    assert_eq!(cell.color_code, color);
}

#[test]
fn unprintable_bytes_become_the_placeholder() {
    let mut w = default_writer();
    let color = w.color();
    w.write_string(&[0x01, 0x1f, 0x7f, 0xc3]);
    for col in 0..4 {
        assert_eq!(
            w.cell_at(HEIGHT - 1, col),
            ScreenChar {
                ascii_char: 0xfe,
                color_code: color,
            }
        );
    }
    assert_eq!(w.column(), 4);
}

#[test]
fn printable_bytes_pass_through_write_string() {
    let mut w = default_writer();
    let color = w.color();
    w.write_string(b"Hello!");
    let expected = b"Hello!";
    for (col, &b) in expected.iter().enumerate() {
        assert_eq!(
            w.cell_at(HEIGHT - 1, col),
            ScreenChar {
                ascii_char: b,
                color_code: color,
            }
        );
    }
}

#[test]
fn newline_scrolls_and_resets_the_cursor() {
    let mut w = default_writer();
    let color = w.color();
    w.write_string(b"hi");
    w.write_byte(b'\n');
    assert_eq!(w.column(), 0);
    assert_eq!(w.cell_at(HEIGHT - 2, 0).ascii_char, b'h');
    assert_eq!(w.cell_at(HEIGHT - 2, 1).ascii_char, b'i');
    for col in 0..WIDTH {
        assert_eq!(w.cell_at(HEIGHT - 1, col), blank(color));
    }
}

#[test]
fn write_string_handles_embedded_newlines() {
    let mut w = default_writer();
    w.write_string(b"hi\nok");
    assert_eq!(w.cell_at(HEIGHT - 2, 0).ascii_char, b'h');
    assert_eq!(w.cell_at(HEIGHT - 2, 1).ascii_char, b'i');
    assert_eq!(w.cell_at(HEIGHT - 1, 0).ascii_char, b'o');
    assert_eq!(w.cell_at(HEIGHT - 1, 1).ascii_char, b'k');
    assert_eq!(w.column(), 2);
}

#[test]
fn full_row_fills_without_scrolling_and_one_more_scrolls_once() {
    let mut w = default_writer();
    let color = w.color();
    let mut line = [0u8; WIDTH];
    for (i, b) in line.iter_mut().enumerate() {
        *b = b'A' + (i % 26) as u8;
    }
    w.write_string(&line);
    assert_eq!(w.column(), WIDTH);
    for (i, &b) in line.iter().enumerate() {
        assert_eq!(w.cell_at(HEIGHT - 1, i).ascii_char, b);
    }
    // No scroll yet: the row above is still blank.
    for col in 0..WIDTH {
        assert_eq!(w.cell_at(HEIGHT - 2, col), blank(color));
    }
    // One more byte: exactly one scroll, and the byte lands at column 0.
    w.write_byte(b'!');
    assert_eq!(w.column(), 1);
    for (i, &b) in line.iter().enumerate() {
        assert_eq!(w.cell_at(HEIGHT - 2, i).ascii_char, b);
    }
    assert_eq!(w.cell_at(HEIGHT - 1, 0).ascii_char, b'!');
    for col in 1..WIDTH {
        assert_eq!(w.cell_at(HEIGHT - 1, col), blank(color));
    }
}

#[test]
fn n_newlines_shift_rows_up_n_and_blank_the_bottom() {
    let mut w = default_writer();
    let color = w.color();
    w.write_byte(b'A');
    let n = 3;
    for _ in 0..n {
        w.write_byte(b'\n');
    }
    assert_eq!(w.column(), 0);
    assert_eq!(w.cell_at(HEIGHT - 1 - n, 0).ascii_char, b'A');
    for row in (HEIGHT - n)..HEIGHT {
        for col in 0..WIDTH {
            assert_eq!(w.cell_at(row, col), blank(color));
        }
    }
}

#[test]
fn scrolling_the_whole_screen_clears_it() {
    let mut w = default_writer();
    let color = w.color();
    w.write_string(b"some text");
    for _ in 0..HEIGHT {
        w.write_byte(b'\n');
    }
    for row in 0..HEIGHT {
        for col in 0..WIDTH {
            assert_eq!(w.cell_at(row, col), blank(color));
        }
    }
}
