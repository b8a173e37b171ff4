use myterm::config::{ColorConfig, Rgb, TerminalConfig};
use myterm::grid::CellFlags;
use myterm::terminal::TerminalPerformer;

struct Screen {
    model: TerminalPerformer,
}

impl vte::Perform for Screen {
    fn print(&mut self, c: char) {
        self.model.print(c);
    }

    fn execute(&mut self, byte: u8) {
        self.model.execute(byte);
    }

    fn csi_dispatch(&mut self, params: &vte::Params, intermediates: &[u8], ignore: bool, c: char) {
        let params: Vec<Vec<u16>> = params.iter().map(|p| p.to_vec()).collect();
        self.model.csi_dispatch(&params, intermediates, ignore, c);
    }

    fn esc_dispatch(&mut self, intermediates: &[u8], ignore: bool, byte: u8) {
        self.model.esc_dispatch(intermediates, ignore, byte);
    }

    fn osc_dispatch(&mut self, params: &[&[u8]], bell_terminated: bool) {
        let params: Vec<Vec<u8>> = params.iter().map(|p| p.to_vec()).collect();
        self.model.osc_dispatch(&params, bell_terminated);
    }
}

fn screen(rows: usize, cols: usize) -> Screen {
    let model = TerminalPerformer::new(rows, cols, &TerminalConfig::default(), &ColorConfig::default());
    Screen { model }
}

fn feed(screen: &mut Screen, bytes: &[u8]) {
    let mut parser = vte::Parser::new();
    for &b in bytes {
        parser.advance(screen, b);
    }
}

fn row_text(s: &Screen, r: usize) -> String {
    s.model.grid.cells[r].iter().map(|c| c.c).collect()
}

const WHITE: Rgb = Rgb { r: 255, g: 255, b: 255 };
const BLACK: Rgb = Rgb { r: 0, g: 0, b: 0 };

#[test]
fn print_three_chars_rests_on_last_column() {
    let mut s = screen(3, 3);
    feed(&mut s, b"ABC");
    assert_eq!(row_text(&s, 0), "ABC");
    assert_eq!(s.model.cursor.row, 0);
    assert_eq!(s.model.cursor.col, 2);
    assert!(s.model.pending_wrap);
    assert_eq!(s.model.grid.scrollback.len(), 0);
}

#[test]
fn erase_display_and_home() {
    let mut s = screen(3, 3);
    feed(&mut s, b"XXXXXXXXX");
    assert_eq!(row_text(&s, 2), "XXX");
    feed(&mut s, b"\x1b[2J\x1b[H");
    for r in 0..3 {
        for c in 0..3 {
            let cell = s.model.grid.cells[r][c];
            assert_eq!(cell.c, ' ');
            assert_eq!(cell.fg, WHITE);
            assert_eq!(cell.bg, BLACK);
            assert!(cell.flags.is_empty());
        }
    }
    assert_eq!((s.model.cursor.row, s.model.cursor.col), (0, 0));
}

#[test]
fn sgr_colour_then_reset() {
    let mut s = screen(3, 3);
    feed(&mut s, b"\x1b[31mR\x1b[0mG");
    let r = s.model.grid.cells[0][0];
    assert_eq!(r.c, 'R');
    assert_eq!(r.fg, Rgb { r: 0x80, g: 0, b: 0 });
    assert!(r.flags.is_empty());
    let g = s.model.grid.cells[0][1];
    assert_eq!(g.c, 'G');
    assert_eq!(g.fg, WHITE);
}

#[test]
fn line_feeds_scroll_into_scrollback() {
    let mut s = screen(3, 3);
    feed(&mut s, b"a\nb\nc\nd\ne");
    assert_eq!(s.model.grid.scrollback.len(), 2);
    assert_eq!(s.model.grid.scrollback[0][0].c, 'a');
    assert_eq!(s.model.grid.scrollback[1][1].c, 'b');
    assert_eq!(s.model.grid.cells[0][2].c, 'c');
    assert_eq!(s.model.grid.cells[1][2].c, 'd');
    assert_eq!(s.model.grid.cells[2][2].c, 'e');
}

#[test]
fn osc_sets_title() {
    let mut s = screen(3, 3);
    feed(&mut s, b"\x1b]0;Hello\x07");
    assert_eq!(s.model.title, "Hello");
    feed(&mut s, "\x1b]2;caf\u{e9}\x1b\\".as_bytes());
    assert_eq!(s.model.title, "caf\u{e9}");
}

#[test]
fn osc_title_with_bad_utf8_is_ignored() {
    let mut s = screen(3, 3);
    feed(&mut s, b"\x1b]0;ok\x07");
    s.model.osc_dispatch(&[b"0".to_vec(), vec![0xff, 0xfe]], true);
    assert_eq!(s.model.title, "ok");
}

#[test]
fn cursor_position_is_one_based() {
    let mut s = screen(10, 10);
    feed(&mut s, b"\x1b[5;5H");
    assert_eq!((s.model.cursor.row, s.model.cursor.col), (4, 4));
    feed(&mut s, b"\x1b[99;99H");
    assert_eq!((s.model.cursor.row, s.model.cursor.col), (9, 9));
}

#[test]
fn cursor_stays_on_screen_under_noise() {
    let mut s = screen(4, 5);
    let mut bytes: Vec<u8> = Vec::new();
    let mut x: u32 = 12345;
    for _ in 0..4000 {
        x = x.wrapping_mul(1103515245).wrapping_add(12345);
        bytes.push((x >> 16) as u8);
    }
    bytes.extend_from_slice(b"\x1b[200B\x1b[200C\x1b[2;3r\x1b[?6h\x1b[40A\x1b[9L\x1b[9M\x1b[9P\x1b[9@\x1b[9S\x1b[9T");
    let mut parser = vte::Parser::new();
    for &b in &bytes {
        parser.advance(&mut s, b);
        assert!(s.model.cursor.row < s.model.grid.rows);
        assert!(s.model.cursor.col < s.model.grid.cols);
    }
}

#[test]
fn resize_keeps_grid_rectangular() {
    let mut s = screen(5, 5);
    feed(&mut s, b"\x1b[5;5Hx");
    for &(r, c) in &[(2usize, 7usize), (9, 1), (1, 1), (6, 3)] {
        s.model.resize(r, c);
        assert_eq!(s.model.grid.cells.len(), r);
        for row in &s.model.grid.cells {
            assert_eq!(row.len(), c);
        }
        assert!(s.model.cursor.row < r && s.model.cursor.col < c);
        assert_eq!(s.model.scroll_region, (0, r - 1));
    }
}

#[test]
fn scrollback_stays_within_limit() {
    let mut terminal = TerminalConfig::default();
    terminal.scrollback_lines = 2;
    let mut s = Screen {
        model: TerminalPerformer::new(2, 4, &terminal, &ColorConfig::default()),
    };
    feed(&mut s, b"1\r\n2\r\n3\r\n4\r\n5\r\n6");
    assert_eq!(s.model.grid.scrollback.len(), 2);
    assert_eq!(s.model.grid.scrollback[0][0].c, '3');
    assert_eq!(s.model.grid.scrollback[1][0].c, '4');
}

#[test]
fn zero_scrollback_limit_keeps_nothing() {
    let mut terminal = TerminalConfig::default();
    terminal.scrollback_lines = 0;
    let mut s = Screen {
        model: TerminalPerformer::new(2, 4, &terminal, &ColorConfig::default()),
    };
    feed(&mut s, b"1\r\n2\r\n3\r\n");
    assert_eq!(s.model.grid.scrollback.len(), 0);
    feed(&mut s, b"\x1b[3J");
    assert_eq!(s.model.grid.scrollback.len(), 0);
}

#[test]
fn sgr_zero_clears_every_attribute() {
    let mut s = screen(3, 3);
    feed(&mut s, b"\x1b[1;2;3;4;5;7;8;9;31;42m");
    assert_eq!(s.model.current_flags.bits(), 0xff);
    feed(&mut s, b"\x1b[0m");
    assert!(s.model.current_flags.is_empty());
    assert_eq!(s.model.current_fg, WHITE);
    assert_eq!(s.model.current_bg, BLACK);
    feed(&mut s, b"\x1b[1m\x1b[m");
    assert!(s.model.current_flags.is_empty());
}

#[test]
fn printed_cells_carry_the_rendition() {
    let mut s = screen(2, 4);
    feed(&mut s, b"\x1b[1;4;38;2;10;20;30;48;5;196mab\r\ncd");
    let flags = CellFlags::bold() | CellFlags::underline();
    for &(r, c) in &[(0usize, 0usize), (0, 1), (1, 0), (1, 1)] {
        let cell = s.model.grid.cells[r][c];
        assert_eq!(cell.flags, flags);
        assert_eq!(cell.fg, Rgb { r: 10, g: 20, b: 30 });
        assert_eq!(cell.bg, Rgb { r: 255, g: 0, b: 0 });
    }
    feed(&mut s, b"\x1b[22;24;39;49me");
    let e = s.model.grid.cells[1][2];
    assert!(e.flags.is_empty());
    assert_eq!(e.fg, WHITE);
    assert_eq!(e.bg, BLACK);
}

#[test]
fn save_and_restore_cursor() {
    let mut s = screen(6, 8);
    feed(&mut s, b"\x1b[3;4H\x1b[1;32m\x1b7");
    let fg = s.model.current_fg;
    feed(&mut s, b"\x1b[0m\x1b[H\x1b[2Jxyz\r\n\x1b[5;7H\x1b[7m");
    feed(&mut s, b"\x1b8");
    assert_eq!((s.model.cursor.row, s.model.cursor.col), (2, 3));
    assert_eq!(s.model.current_fg, fg);
    assert_eq!(s.model.current_flags, CellFlags::bold());
    feed(&mut s, b"\x1b[1;1H\x1b[u");
    assert_eq!((s.model.cursor.row, s.model.cursor.col), (2, 3));
}

#[test]
fn carriage_return_line_feed_never_moves_right() {
    let mut s = screen(3, 5);
    feed(&mut s, b"abc");
    feed(&mut s, b"\r");
    assert_eq!(s.model.cursor.col, 0);
    feed(&mut s, b"\n");
    assert_eq!(s.model.cursor.col, 0);
    feed(&mut s, b"\r");
    assert_eq!(s.model.cursor.col, 0);
    feed(&mut s, b"ab\n");
    assert_eq!(s.model.cursor.col, 2);
}

#[test]
fn autowrap_off_overwrites_last_column() {
    let mut s = screen(2, 3);
    feed(&mut s, b"\x1b[?7labcd");
    assert_eq!(row_text(&s, 0), "abd");
    assert_eq!(row_text(&s, 1), "   ");
    feed(&mut s, b"\x1b[?7h\x1b[H\x1b[2Jabcd");
    assert_eq!(row_text(&s, 0), "abc");
    assert_eq!(row_text(&s, 1), "d  ");
}

#[test]
fn insert_mode_shifts_right() {
    let mut s = screen(1, 4);
    feed(&mut s, b"abcd\x1b[1G\x1b[4hX\x1b[4lY");
    assert_eq!(row_text(&s, 0), "XYbc");
}

#[test]
fn backspace_and_tab() {
    let mut s = screen(2, 20);
    feed(&mut s, b"ab\x08\x08\x08");
    assert_eq!(s.model.cursor.col, 0);
    feed(&mut s, b"\t");
    assert_eq!(s.model.cursor.col, 8);
    feed(&mut s, b"\t\t\t");
    assert_eq!(s.model.cursor.col, 19);
}

#[test]
fn erase_in_line_modes() {
    let mut s = screen(1, 5);
    feed(&mut s, b"abcde\x1b[3G\x1b[K");
    assert_eq!(row_text(&s, 0), "ab   ");
    feed(&mut s, b"\x1b[H\x1b[2Jabcde\x1b[3G\x1b[1K");
    assert_eq!(row_text(&s, 0), "   de");
    feed(&mut s, b"\x1b[2K");
    assert_eq!(row_text(&s, 0), "     ");
}

#[test]
fn erase_display_from_and_to_cursor() {
    let mut s = screen(3, 3);
    feed(&mut s, b"abcdefghi\x1b[2;2H\x1b[J");
    assert_eq!(row_text(&s, 0), "abc");
    assert_eq!(row_text(&s, 1), "d  ");
    assert_eq!(row_text(&s, 2), "   ");
    feed(&mut s, b"\x1b[H\x1b[2Jabcdefghi\x1b[2;2H\x1b[1J");
    assert_eq!(row_text(&s, 0), "   ");
    assert_eq!(row_text(&s, 1), "  f");
    assert_eq!(row_text(&s, 2), "ghi");
}

#[test]
fn insert_and_delete_characters() {
    let mut s = screen(1, 6);
    feed(&mut s, b"abcdef\x1b[2G\x1b[2P");
    assert_eq!(row_text(&s, 0), "adef  ");
    feed(&mut s, b"\x1b[2@");
    assert_eq!(row_text(&s, 0), "a  def");
}

#[test]
fn insert_and_delete_lines_within_region() {
    let mut s = screen(4, 2);
    feed(&mut s, b"1\r\n2\r\n3\r\n4\x1b[2;3r\x1b[2;1H\x1b[L");
    assert_eq!(row_text(&s, 0), "1 ");
    assert_eq!(row_text(&s, 1), "  ");
    assert_eq!(row_text(&s, 2), "2 ");
    assert_eq!(row_text(&s, 3), "4 ");
    feed(&mut s, b"\x1b[M");
    assert_eq!(row_text(&s, 1), "2 ");
    assert_eq!(row_text(&s, 2), "  ");
    assert_eq!(row_text(&s, 3), "4 ");
}

#[test]
fn scroll_region_keeps_status_line_and_scrollback() {
    let mut s = screen(3, 2);
    feed(&mut s, b"\x1b[3;1Hs\x1b[1;2r\x1b[1;1Ha\r\nb\r\nc");
    assert_eq!(row_text(&s, 0), "b ");
    assert_eq!(row_text(&s, 1), "c ");
    assert_eq!(row_text(&s, 2), "s ");
    assert_eq!(s.model.grid.scrollback.len(), 1);
    assert_eq!(s.model.grid.scrollback[0][0].c, 'a');
    feed(&mut s, b"\x1b[2;3r\x1b[S");
    assert_eq!(row_text(&s, 1), "s ");
    assert_eq!(row_text(&s, 2), "  ");
    assert_eq!(s.model.grid.scrollback.len(), 1);
}

#[test]
fn scroll_down_and_reverse_index() {
    let mut s = screen(3, 1);
    feed(&mut s, b"a\r\nb\r\nc\x1b[T");
    assert_eq!(row_text(&s, 0), " ");
    assert_eq!(row_text(&s, 1), "a");
    assert_eq!(row_text(&s, 2), "b");
    feed(&mut s, b"\x1b[H\x1bM");
    assert_eq!(row_text(&s, 0), " ");
    assert_eq!(row_text(&s, 1), " ");
    assert_eq!(row_text(&s, 2), "a");
}

#[test]
fn indexed_colours() {
    let mut s = screen(1, 4);
    feed(&mut s, b"\x1b[38;5;21m\x1b[48;5;244m\x1b[93m");
    assert_eq!(s.model.current_bg, Rgb { r: 128, g: 128, b: 128 });
    assert_eq!(s.model.current_fg, Rgb { r: 255, g: 255, b: 0 });
    feed(&mut s, b"\x1b[38;5;21m");
    assert_eq!(s.model.current_fg, Rgb { r: 0, g: 0, b: 255 });
    feed(&mut s, b"\x1b[104m");
    assert_eq!(s.model.current_bg, Rgb { r: 0, g: 0, b: 255 });
}

#[test]
fn private_modes() {
    let mut s = screen(5, 5);
    feed(&mut s, b"\x1b[?25l\x1b[?1h");
    assert!(!s.model.cursor.visible);
    assert!(s.model.cursor_keys_mode);
    feed(&mut s, b"\x1b[2;4r\x1b[?6h\x1b[1;1H");
    assert_eq!(s.model.cursor.row, 1);
    feed(&mut s, b"\x1b[9;1H");
    assert_eq!(s.model.cursor.row, 3);
    feed(&mut s, b"\x1b[?6l\x1b[?25h");
    assert!(!s.model.origin_mode);
    assert!(s.model.cursor.visible);
}

#[test]
fn alternate_screen_keeps_the_main_one() {
    let mut s = screen(3, 4);
    feed(&mut s, b"main\x1b[2;2H\x1b[1m");
    feed(&mut s, b"\x1b[?1049h");
    assert!(s.model.primary.is_some());
    assert_eq!(row_text(&s, 0), "    ");
    assert_eq!(s.model.grid.scrollback_limit, 0);
    feed(&mut s, b"\x1b[Hx\r\ny\r\nz\r\nw");
    assert_eq!(s.model.grid.scrollback.len(), 0);
    feed(&mut s, b"\x1b[?1049l");
    assert!(s.model.primary.is_none());
    assert_eq!(row_text(&s, 0), "main");
    assert_eq!((s.model.cursor.row, s.model.cursor.col), (2, 1));
    assert_eq!(s.model.current_flags, CellFlags::bold());
}

#[test]
fn alternate_screen_leaves_pen_and_saved_cursor() {
    let mut s = screen(4, 4);
    feed(&mut s, b"\x1b[2;3H\x1b[32m\x1b7\x1b[0m\x1b[4;4H\x1b[?1049h\x1b[1;31m\x1b[?1049l");
    assert_eq!(s.model.current_fg, Rgb { r: 0x80, g: 0, b: 0 });
    assert_eq!(s.model.current_flags, CellFlags::bold());
    assert_eq!((s.model.cursor.row, s.model.cursor.col), (3, 3));
    feed(&mut s, b"\x1b8");
    assert_eq!((s.model.cursor.row, s.model.cursor.col), (1, 2));
    assert_eq!(s.model.current_fg, Rgb { r: 0, g: 0x80, b: 0 });
    assert!(s.model.current_flags.is_empty());
}

#[test]
fn alternate_screen_survives_resize() {
    let mut s = screen(3, 4);
    feed(&mut s, b"abcd\x1b[?1049h");
    s.model.resize(2, 2);
    feed(&mut s, b"\x1b[?1049l");
    assert_eq!(s.model.grid.rows, 2);
    assert_eq!(s.model.grid.cols, 2);
    assert_eq!(row_text(&s, 0), "ab");
    assert!(s.model.cursor.row < 2 && s.model.cursor.col < 2);
}
