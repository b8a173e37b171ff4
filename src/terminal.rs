use vstd::prelude::*;
use crate::config::{
    parse_color, parse_color_spec, ColorConfig, ColorError, CursorShape, Rgb, TerminalConfig,
};
use crate::grid::{
    blank_row, blanked, deleted_cells, deleted_lines, inserted_cells, inserted_lines, pushed_all,
    resized, scrolled_history, shift_down, shift_up,
};
pub use crate::grid::{Cell, CellFlags, Cursor, Grid};
use crate::sgr::{apply_sgr, flat, params_view, sgr, sgr_from, Pen};
use crate::text::decode_utf8_text;

verus! {

/// What DECSC keeps: the cursor position and the pen.
#[derive(Clone, Copy, Debug, PartialEq, Eq, Structural)]
pub struct SavedCursor {
    pub row: usize,
    pub col: usize,
    pub pen: Pen,
}

/// A grid as mathematical values.
pub struct GridView {
    pub lines: Seq<Seq<Cell>>,
    pub history: Seq<Seq<Cell>>,
    pub rows: usize,
    pub cols: usize,
    pub scrollback_limit: usize,
}

impl GridView {
    pub open spec fn wf(self) -> bool {
        &&& self.rows >= 1
        &&& self.cols >= 1
        &&& self.lines.len() == self.rows
        &&& forall|r: int| 0 <= r < self.rows ==> (#[trigger] self.lines[r]).len() == self.cols
        &&& self.history.len() <= self.scrollback_limit
    }
}

impl Grid {
    pub open spec fn grid_view(&self) -> GridView {
        GridView {
            lines: self.lines(),
            history: self.history(),
            rows: self.rows,
            cols: self.cols,
            scrollback_limit: self.scrollback_limit,
        }
    }
}

/// The whole state of the screen as mathematical values.
pub struct ScreenView {
    pub lines: Seq<Seq<Cell>>,
    pub history: Seq<Seq<Cell>>,
    pub rows: usize,
    pub cols: usize,
    pub scrollback_limit: usize,
    pub row: usize,
    pub col: usize,
    pub pending_wrap: bool,
    pub shape: CursorShape,
    pub visible: bool,
    pub pen: Pen,
    pub default_fg: Rgb,
    pub default_bg: Rgb,
    pub palette: Seq<Rgb>,
    pub saved: Option<SavedCursor>,
    pub top: usize,
    pub bottom: usize,
    pub insert_mode: bool,
    pub auto_wrap: bool,
    pub origin_mode: bool,
    pub cursor_keys_mode: bool,
    pub title: Seq<char>,
    /// The main screen while the alternate screen is shown.
    pub primary: Option<GridView>,
}

impl ScreenView {
    /// A full grid, the cursor on it, the scroll region inside it, the scrollback within bound.
    pub open spec fn wf(self) -> bool {
        &&& self.rows >= 1
        &&& self.cols >= 1
        &&& self.lines.len() == self.rows
        &&& forall|r: int| 0 <= r < self.rows ==> (#[trigger] self.lines[r]).len() == self.cols
        &&& self.history.len() <= self.scrollback_limit
        &&& self.row < self.rows
        &&& self.col < self.cols
        &&& self.top <= self.bottom < self.rows
        &&& self.palette.len() == 16
        &&& (self.primary matches Some(g) ==> g.wf())
    }

    /// The cell that printing `c` writes.
    pub open spec fn pen_cell(self, c: char) -> Cell {
        Cell { c, fg: self.pen.fg, bg: self.pen.bg, flags: CellFlags { bits: self.pen.flags } }
    }
}

/// LF: down one row; at the bottom of the scroll region the region scrolls up instead.
pub open spec fn linefeed(v: ScreenView) -> ScreenView {
    if v.row == v.bottom {
        ScreenView {
            lines: shift_up(v.lines, v.top as int, v.bottom as int, v.cols as nat),
            history: scrolled_history(
                v.history,
                v.lines,
                v.top as int,
                v.scrollback_limit as nat,
            ),
            pending_wrap: false,
            ..v
        }
    } else if v.row + 1 < v.rows {
        ScreenView { row: (v.row + 1) as usize, pending_wrap: false, ..v }
    } else {
        ScreenView { pending_wrap: false, ..v }
    }
}

/// CR: back to the first column.
pub open spec fn carriage_return(v: ScreenView) -> ScreenView {
    ScreenView { col: 0, pending_wrap: false, ..v }
}

/// BS: one column left, stopping at the first.
pub open spec fn backspace(v: ScreenView) -> ScreenView {
    ScreenView { col: if v.col > 0 { (v.col - 1) as usize } else { 0 }, pending_wrap: false, ..v }
}

/// HT: to the next multiple of eight, stopping at the last column.
pub open spec fn tab(v: ScreenView) -> ScreenView {
    let next = (v.col / 8 + 1) * 8;
    ScreenView {
        col: if next < v.cols { next as usize } else { (v.cols - 1) as usize },
        pending_wrap: false,
        ..v
    }
}

/// A C0 control; those without a meaning here change nothing.
pub open spec fn execute(v: ScreenView, byte: u8) -> ScreenView {
    if byte == 0x08 {
        backspace(v)
    } else if byte == 0x09 {
        tab(v)
    } else if byte == 0x0a {
        linefeed(v)
    } else if byte == 0x0d {
        carriage_return(v)
    } else {
        v
    }
}

/// Printing `c`: a pending wrap is taken first (with autowrap on), then the cell is written
/// (shifting the rest of the row right in insert mode) and the cursor advances, or, on the last
/// column, stays and sets the pending wrap.
pub open spec fn print(v: ScreenView, c: char) -> ScreenView {
    let w = if v.pending_wrap && v.auto_wrap {
        ScreenView { col: 0, ..linefeed(v) }
    } else {
        v
    };
    let cell = v.pen_cell(c);
    let line = w.lines[w.row as int];
    let new_line = if v.insert_mode {
        line.insert(w.col as int, cell).drop_last()
    } else {
        line.update(w.col as int, cell)
    };
    ScreenView {
        lines: w.lines.update(w.row as int, new_line),
        col: if w.col + 1 < w.cols { (w.col + 1) as usize } else { w.col },
        pending_wrap: w.col + 1 >= w.cols,
        ..w
    }
}

/// The colour a setting names, or `fallback` where it names none.
pub open spec fn color_or(r: Result<Rgb, ColorError>, fallback: Rgb) -> Rgb {
    match r {
        Ok(c) => c,
        Err(_) => fallback,
    }
}

/// The sixteen palette colours: the normal eight then the bright eight, each falling back to
/// `fallback` where its setting names no colour.
pub open spec fn palette_of(colors: ColorConfig, fallback: Rgb) -> Seq<Rgb> {
    Seq::new(
        16,
        |i: int|
            if i < 8 {
                color_or(parse_color_spec(colors.normal@[i]@), fallback)
            } else {
                color_or(parse_color_spec(colors.bright@[i - 8]@), fallback)
            },
    )
}

/// A fresh screen: blank, cursor home, default pen, whole-screen scroll region, autowrap on.
pub open spec fn initial(
    rows: usize,
    cols: usize,
    terminal: TerminalConfig,
    colors: ColorConfig,
) -> ScreenView {
    let fg = color_or(parse_color_spec(colors.foreground@), Rgb { r: 255, g: 255, b: 255 });
    let bg = color_or(parse_color_spec(colors.background@), Rgb { r: 0, g: 0, b: 0 });
    ScreenView {
        lines: Seq::new(rows as nat, |r: int| blank_row(cols as nat)),
        history: Seq::empty(),
        rows,
        cols,
        scrollback_limit: terminal.scrollback_lines as usize,
        row: 0,
        col: 0,
        pending_wrap: false,
        shape: terminal.cursor_shape,
        visible: true,
        pen: Pen { fg, bg, flags: 0 },
        default_fg: fg,
        default_bg: bg,
        palette: palette_of(colors, fg),
        saved: None,
        top: 0,
        bottom: (rows - 1) as usize,
        insert_mode: false,
        auto_wrap: true,
        origin_mode: false,
        cursor_keys_mode: false,
        title: Seq::empty(),
        primary: None,
    }
}

/// A new size: cells that fit are kept, the cursor is pulled inside, the scroll region becomes
/// the whole screen.
pub open spec fn resize(v: ScreenView, rows: usize, cols: usize) -> ScreenView {
    ScreenView {
        lines: resized(v.lines, rows as nat, cols as nat),
        rows,
        cols,
        row: if v.row < rows { v.row } else { (rows - 1) as usize },
        col: if v.col < cols { v.col } else { (cols - 1) as usize },
        pending_wrap: false,
        top: 0,
        bottom: (rows - 1) as usize,
        ..v
    }
}

/// DECSC: keeps the cursor position and the pen.
pub open spec fn save_cursor(v: ScreenView) -> ScreenView {
    ScreenView { saved: Some(SavedCursor { row: v.row, col: v.col, pen: v.pen }), ..v }
}

/// DECRC: brings back what DECSC kept, the position pulled inside the screen; nothing happens
/// when nothing was kept.
pub open spec fn restore_cursor(v: ScreenView) -> ScreenView {
    match v.saved {
        Some(s) => ScreenView {
            row: if s.row < v.rows { s.row } else { (v.rows - 1) as usize },
            col: if s.col < v.cols { s.col } else { (v.cols - 1) as usize },
            pen: s.pen,
            pending_wrap: false,
            ..v
        },
        None => v,
    }
}

/// RI: up one row; at the top of the scroll region the region scrolls down instead.
pub open spec fn reverse_index(v: ScreenView) -> ScreenView {
    if v.row == v.top {
        ScreenView {
            lines: shift_down(v.lines, v.top as int, v.bottom as int, v.cols as nat),
            pending_wrap: false,
            ..v
        }
    } else if v.row > 0 {
        ScreenView { row: (v.row - 1) as usize, pending_wrap: false, ..v }
    } else {
        ScreenView { pending_wrap: false, ..v }
    }
}

/// An escape sequence other than CSI: `7` saves the cursor, `8` restores it, `D` is a line feed,
/// `E` a new line, `M` a reverse index. With intermediates, or another final, nothing happens.
pub open spec fn esc(v: ScreenView, intermediates: Seq<u8>, byte: u8) -> ScreenView {
    if intermediates.len() != 0 {
        v
    } else if byte == 0x37 {
        save_cursor(v)
    } else if byte == 0x38 {
        restore_cursor(v)
    } else if byte == 0x44 {
        linefeed(v)
    } else if byte == 0x45 {
        ScreenView { col: 0, ..linefeed(v) }
    } else if byte == 0x4d {
        reverse_index(v)
    } else {
        v
    }
}

/// An operating system command: `0` and `2` set the title to their UTF-8 argument.
pub open spec fn osc(v: ScreenView, params: Seq<Seq<u8>>) -> ScreenView {
    if params.len() >= 2 && (params[0] == seq![0x30u8] || params[0] == seq![0x32u8])
        && vstd::utf8::valid_utf8(params[1]) {
        ScreenView { title: vstd::utf8::decode_utf8(params[1]), ..v }
    } else {
        v
    }
}

/// The views of a list of byte strings.
pub open spec fn bytes_view(params: Seq<Vec<u8>>) -> Seq<Seq<u8>> {
    params.map_values(|p: Vec<u8>| p@)
}

/// The first value of parameter `i`; 0 where it is missing.
pub open spec fn arg(params: Seq<Seq<u16>>, i: int) -> nat {
    if 0 <= i < params.len() && params[i].len() > 0 {
        params[i][0] as nat
    } else {
        0
    }
}

/// Parameter `i` as a count: a missing or zero value counts as one.
pub open spec fn count(params: Seq<Seq<u16>>, i: int) -> nat {
    if arg(params, i) == 0 {
        1
    } else {
        arg(params, i)
    }
}

/// CUU: up `n` rows, stopping at the top of the scroll region (at the first row when the
/// cursor is above the region).
pub open spec fn cursor_up(v: ScreenView, n: nat) -> ScreenView {
    let floor = if v.row >= v.top { v.top } else { 0 };
    ScreenView {
        row: if v.row >= floor + n { (v.row - n) as usize } else { floor },
        pending_wrap: false,
        ..v
    }
}

/// CUD: down `n` rows, stopping at the bottom of the scroll region (at the last row when the
/// cursor is below the region).
pub open spec fn cursor_down(v: ScreenView, n: nat) -> ScreenView {
    let ceiling = if v.row <= v.bottom { v.bottom } else { (v.rows - 1) as usize };
    ScreenView {
        row: if v.row + n <= ceiling { (v.row + n) as usize } else { ceiling },
        pending_wrap: false,
        ..v
    }
}

/// CUF: right `n` columns, stopping at the last.
pub open spec fn cursor_forward(v: ScreenView, n: nat) -> ScreenView {
    ScreenView {
        col: if v.col + n < v.cols { (v.col + n) as usize } else { (v.cols - 1) as usize },
        pending_wrap: false,
        ..v
    }
}

/// CUB: left `n` columns, stopping at the first.
pub open spec fn cursor_backward(v: ScreenView, n: nat) -> ScreenView {
    ScreenView { col: if v.col >= n { (v.col - n) as usize } else { 0 }, pending_wrap: false, ..v }
}

/// The column for the one-based column `p`, kept on the screen.
pub open spec fn col_target(v: ScreenView, p: nat) -> usize {
    if p - 1 < v.cols {
        (p - 1) as usize
    } else {
        (v.cols - 1) as usize
    }
}

/// The row for the one-based row `p`: in origin mode counted from the top of the scroll region
/// and kept inside it, else counted from the top of the screen and kept on it.
pub open spec fn row_target(v: ScreenView, p: nat) -> usize {
    if v.origin_mode {
        if v.top + p - 1 <= v.bottom {
            (v.top + p - 1) as usize
        } else {
            v.bottom
        }
    } else if p - 1 < v.rows {
        (p - 1) as usize
    } else {
        (v.rows - 1) as usize
    }
}

/// CHA: to the one-based column `p`.
pub open spec fn cursor_to_col(v: ScreenView, p: nat) -> ScreenView {
    ScreenView { col: col_target(v, p), pending_wrap: false, ..v }
}

/// VPA: to the one-based row `p`.
pub open spec fn cursor_to_row(v: ScreenView, p: nat) -> ScreenView {
    ScreenView { row: row_target(v, p), pending_wrap: false, ..v }
}

/// CUP: to the one-based row `r` and column `c`.
pub open spec fn cursor_position(v: ScreenView, r: nat, c: nat) -> ScreenView {
    ScreenView { row: row_target(v, r), col: col_target(v, c), pending_wrap: false, ..v }
}

/// ED: 0 erases from the cursor to the end of the screen, 1 from the start of the screen to the
/// cursor, 2 everything, 3 everything and the scrollback; the cursor stays.
pub open spec fn erase_display(v: ScreenView, mode: nat) -> ScreenView {
    if mode == 0 {
        ScreenView {
            lines: Seq::new(
                v.rows as nat,
                |r: int|
                    if r < v.row {
                        v.lines[r]
                    } else if r == v.row {
                        blanked(v.lines[r], v.col as int, v.cols as int)
                    } else {
                        blank_row(v.cols as nat)
                    },
            ),
            ..v
        }
    } else if mode == 1 {
        ScreenView {
            lines: Seq::new(
                v.rows as nat,
                |r: int|
                    if r < v.row {
                        blank_row(v.cols as nat)
                    } else if r == v.row {
                        blanked(v.lines[r], 0, v.col + 1)
                    } else {
                        v.lines[r]
                    },
            ),
            ..v
        }
    } else if mode == 2 {
        ScreenView { lines: Seq::new(v.rows as nat, |r: int| blank_row(v.cols as nat)), ..v }
    } else if mode == 3 {
        ScreenView {
            lines: Seq::new(v.rows as nat, |r: int| blank_row(v.cols as nat)),
            history: Seq::empty(),
            ..v
        }
    } else {
        v
    }
}

/// EL: 0 erases from the cursor to the end of the line, 1 from the start of the line to the
/// cursor, 2 the whole line; the cursor stays.
pub open spec fn erase_line(v: ScreenView, mode: nat) -> ScreenView {
    let line = v.lines[v.row as int];
    if mode == 0 {
        ScreenView {
            lines: v.lines.update(v.row as int, blanked(line, v.col as int, v.cols as int)),
            ..v
        }
    } else if mode == 1 {
        ScreenView { lines: v.lines.update(v.row as int, blanked(line, 0, v.col + 1)), ..v }
    } else if mode == 2 {
        ScreenView { lines: v.lines.update(v.row as int, blank_row(v.cols as nat)), ..v }
    } else {
        v
    }
}

/// How many of `n` lines fit between row `at` and the bottom of the region.
pub open spec fn lines_within(v: ScreenView, at: int, n: nat) -> int {
    if n <= v.bottom - at + 1 {
        n as int
    } else {
        v.bottom - at + 1
    }
}

/// How many of `n` cells fit between the cursor and the end of the row.
pub open spec fn cells_within(v: ScreenView, n: nat) -> int {
    if n <= v.cols - v.col {
        n as int
    } else {
        v.cols - v.col
    }
}

/// IL: `n` blank rows put in at the cursor row, inside the scroll region; nothing happens with
/// the cursor outside the region.
pub open spec fn insert_lines(v: ScreenView, n: nat) -> ScreenView {
    if v.top <= v.row <= v.bottom {
        ScreenView {
            lines: inserted_lines(
                v.lines,
                v.row as int,
                v.bottom as int,
                lines_within(v, v.row as int, n),
                v.cols as nat,
            ),
            pending_wrap: false,
            ..v
        }
    } else {
        v
    }
}

/// DL: `n` rows removed at the cursor row, inside the scroll region; nothing happens with the
/// cursor outside the region.
pub open spec fn delete_lines(v: ScreenView, n: nat) -> ScreenView {
    if v.top <= v.row <= v.bottom {
        ScreenView {
            lines: deleted_lines(
                v.lines,
                v.row as int,
                v.bottom as int,
                lines_within(v, v.row as int, n),
                v.cols as nat,
            ),
            pending_wrap: false,
            ..v
        }
    } else {
        v
    }
}

/// DCH: `n` cells removed at the cursor, the rest of the row moving left.
pub open spec fn delete_chars(v: ScreenView, n: nat) -> ScreenView {
    ScreenView {
        lines: v.lines.update(
            v.row as int,
            deleted_cells(v.lines[v.row as int], v.col as int, cells_within(v, n)),
        ),
        pending_wrap: false,
        ..v
    }
}

/// ICH: `n` blank cells put in at the cursor, the rest of the row moving right.
pub open spec fn insert_chars(v: ScreenView, n: nat) -> ScreenView {
    ScreenView {
        lines: v.lines.update(
            v.row as int,
            inserted_cells(v.lines[v.row as int], v.col as int, cells_within(v, n)),
        ),
        pending_wrap: false,
        ..v
    }
}

/// SU: the scroll region moves up `n` lines; a region at the top of the screen hands the rows
/// that leave to the scrollback.
pub open spec fn scroll_up(v: ScreenView, n: nat) -> ScreenView {
    let k = lines_within(v, v.top as int, n);
    ScreenView {
        lines: deleted_lines(v.lines, v.top as int, v.bottom as int, k, v.cols as nat),
        history: if v.top == 0 {
            pushed_all(v.history, v.lines.subrange(0, k), v.scrollback_limit as nat)
        } else {
            v.history
        },
        ..v
    }
}

/// SD: the scroll region moves down `n` lines, blank rows entering at its top.
pub open spec fn scroll_down(v: ScreenView, n: nat) -> ScreenView {
    ScreenView {
        lines: inserted_lines(
            v.lines,
            v.top as int,
            v.bottom as int,
            lines_within(v, v.top as int, n),
            v.cols as nat,
        ),
        ..v
    }
}

/// DECSTBM: the scroll region becomes the one-based rows `[t, b]` (`b` 0 meaning the last row,
/// and kept on the screen) and the cursor goes home; a region of fewer than two rows is refused.
pub open spec fn set_scroll_region(v: ScreenView, t: nat, b: nat) -> ScreenView {
    let bottom = if b == 0 || b > v.rows { v.rows as int } else { b as int };
    if t < bottom {
        ScreenView {
            top: (t - 1) as usize,
            bottom: (bottom - 1) as usize,
            row: if v.origin_mode { (t - 1) as usize } else { 0 },
            col: 0,
            pending_wrap: false,
            ..v
        }
    } else {
        v
    }
}

/// A DEC private mode: 1 application cursor keys, 6 origin mode (which also sends the cursor
/// home), 7 autowrap, 25 cursor visible, 1049 the alternate screen; others change nothing.
pub open spec fn private_mode(v: ScreenView, mode: nat, on: bool) -> ScreenView {
    if mode == 1 {
        ScreenView { cursor_keys_mode: on, ..v }
    } else if mode == 6 {
        ScreenView {
            origin_mode: on,
            row: if on { v.top } else { 0 },
            col: 0,
            pending_wrap: false,
            ..v
        }
    } else if mode == 7 {
        ScreenView { auto_wrap: on, ..v }
    } else if mode == 25 {
        ScreenView { visible: on, ..v }
    } else if mode == 1049 {
        if on {
            enter_alternate(v)
        } else {
            leave_alternate(v)
        }
    } else {
        v
    }
}

/// Entering the alternate screen: a blank screen of the same size, without scrollback, takes
/// the place of the main one, which is kept; the cursor, the pen and the saved cursor stay.
/// Nothing happens when the alternate screen already shows.
pub open spec fn enter_alternate(v: ScreenView) -> ScreenView {
    if v.primary is None {
        ScreenView {
            primary: Some(
                GridView {
                    lines: v.lines,
                    history: v.history,
                    rows: v.rows,
                    cols: v.cols,
                    scrollback_limit: v.scrollback_limit,
                },
            ),
            lines: Seq::new(v.rows as nat, |r: int| blank_row(v.cols as nat)),
            history: Seq::empty(),
            scrollback_limit: 0,
            pending_wrap: false,
            ..v
        }
    } else {
        v
    }
}

/// Leaving the alternate screen: the main screen comes back, fitted to the current size; the
/// cursor, the pen and the saved cursor stay. Nothing happens when the main screen already
/// shows.
pub open spec fn leave_alternate(v: ScreenView) -> ScreenView {
    match v.primary {
        Some(p) => ScreenView {
            lines: resized(p.lines, v.rows as nat, v.cols as nat),
            history: p.history,
            scrollback_limit: p.scrollback_limit,
            primary: None,
            pending_wrap: false,
            ..v
        },
        None => v,
    }
}

/// An ANSI mode: 4 insert mode; others change nothing.
pub open spec fn ansi_mode(v: ScreenView, mode: nat, on: bool) -> ScreenView {
    if mode == 4 {
        ScreenView { insert_mode: on, ..v }
    } else {
        v
    }
}

/// The modes named by the first `n` parameters set (`on`) or reset, in order.
pub open spec fn set_modes(
    v: ScreenView,
    params: Seq<Seq<u16>>,
    n: nat,
    on: bool,
    private: bool,
) -> ScreenView
    decreases n,
{
    if n == 0 {
        v
    } else {
        let w = set_modes(v, params, (n - 1) as nat, on, private);
        if private {
            private_mode(w, arg(params, n - 1), on)
        } else {
            ansi_mode(w, arg(params, n - 1), on)
        }
    }
}

/// SGR: the pen after the graphic rendition sequence.
pub open spec fn set_graphics(v: ScreenView, params: Seq<Seq<u16>>) -> ScreenView {
    ScreenView {
        pen: sgr(v.pen, params, Pen { fg: v.default_fg, bg: v.default_bg, flags: 0 }, v.palette),
        ..v
    }
}

/// A control sequence, chosen by its final character; a `?` intermediate selects the DEC
/// private modes. Unknown sequences change nothing.
pub open spec fn csi(v: ScreenView, params: Seq<Seq<u16>>, intermediates: Seq<u8>, c: char) -> ScreenView {
    if intermediates.len() == 0 {
        if c == 'A' {
            cursor_up(v, count(params, 0))
        } else if c == 'B' {
            cursor_down(v, count(params, 0))
        } else if c == 'C' {
            cursor_forward(v, count(params, 0))
        } else if c == 'D' {
            cursor_backward(v, count(params, 0))
        } else if c == 'G' || c == '`' {
            cursor_to_col(v, count(params, 0))
        } else if c == 'H' || c == 'f' {
            cursor_position(v, count(params, 0), count(params, 1))
        } else if c == 'J' {
            erase_display(v, arg(params, 0))
        } else if c == 'K' {
            erase_line(v, arg(params, 0))
        } else if c == 'L' {
            insert_lines(v, count(params, 0))
        } else if c == 'M' {
            delete_lines(v, count(params, 0))
        } else if c == 'P' {
            delete_chars(v, count(params, 0))
        } else if c == '@' {
            insert_chars(v, count(params, 0))
        } else if c == 'S' {
            scroll_up(v, count(params, 0))
        } else if c == 'T' {
            scroll_down(v, count(params, 0))
        } else if c == 'd' {
            cursor_to_row(v, count(params, 0))
        } else if c == 'h' {
            set_modes(v, params, params.len(), true, false)
        } else if c == 'l' {
            set_modes(v, params, params.len(), false, false)
        } else if c == 'm' {
            set_graphics(v, params)
        } else if c == 'r' {
            set_scroll_region(v, count(params, 0), arg(params, 1))
        } else if c == 's' {
            save_cursor(v)
        } else if c == 'u' {
            restore_cursor(v)
        } else {
            v
        }
    } else if intermediates == seq![0x3fu8] {
        if c == 'h' {
            set_modes(v, params, params.len(), true, true)
        } else if c == 'l' {
            set_modes(v, params, params.len(), false, true)
        } else {
            v
        }
    } else {
        v
    }
}

/// The first value of parameter `i`; 0 where it is missing.
pub fn param_value(params: &[Vec<u16>], i: usize) -> (v: u16)
    ensures
        v as nat == arg(params_view(params@), i as int),
{
    if i < params.len() && params[i].len() > 0 {
        params[i][0]
    } else {
        0
    }
}

/// The screen model driven by the events of a VT parser.
pub struct TerminalPerformer {
    pub grid: Grid,
    pub cursor: Cursor,
    pub default_fg: Rgb,
    pub default_bg: Rgb,
    pub current_fg: Rgb,
    pub current_bg: Rgb,
    pub current_flags: CellFlags,
    pub saved_cursor: Option<SavedCursor>,
    pub scroll_region: (usize, usize),
    pub insert_mode: bool,
    pub auto_wrap_mode: bool,
    pub origin_mode: bool,
    pub cursor_keys_mode: bool,
    pub pending_wrap: bool,
    pub palette: Vec<Rgb>,
    pub title: String,
    /// The main screen while the alternate screen is shown.
    pub primary: Option<Grid>,
}

impl View for TerminalPerformer {
    type V = ScreenView;

    open spec fn view(&self) -> ScreenView {
        ScreenView {
            lines: self.grid.lines(),
            history: self.grid.history(),
            rows: self.grid.rows,
            cols: self.grid.cols,
            scrollback_limit: self.grid.scrollback_limit,
            row: self.cursor.row,
            col: self.cursor.col,
            pending_wrap: self.pending_wrap,
            shape: self.cursor.shape,
            visible: self.cursor.visible,
            pen: Pen { fg: self.current_fg, bg: self.current_bg, flags: self.current_flags.bits },
            default_fg: self.default_fg,
            default_bg: self.default_bg,
            palette: self.palette@,
            saved: self.saved_cursor,
            top: self.scroll_region.0,
            bottom: self.scroll_region.1,
            insert_mode: self.insert_mode,
            auto_wrap: self.auto_wrap_mode,
            origin_mode: self.origin_mode,
            cursor_keys_mode: self.cursor_keys_mode,
            title: self.title@,
            primary: match self.primary {
                Some(g) => Some(g.grid_view()),
                None => None,
            },
        }
    }
}

impl TerminalPerformer {
    /// The grid is full, the cursor and the scroll region lie on it, the palette has sixteen
    /// colours, and a main screen kept aside is a full grid too.
    pub open spec fn wf(&self) -> bool {
        &&& self.grid.wf()
        &&& self.cursor.row < self.grid.rows
        &&& self.cursor.col < self.grid.cols
        &&& self.scroll_region.0 <= self.scroll_region.1 < self.grid.rows
        &&& self.palette@.len() == 16
        &&& (self.primary matches Some(g) ==> g.wf())
    }

    /// A well-formed model has a well-formed view.
    pub proof fn lemma_view_wf(&self)
        requires
            self.wf(),
        ensures
            self@.wf(),
    {
        assert forall|r: int| 0 <= r < self@.rows implies (#[trigger] self@.lines[r]).len()
            == self@.cols by {
            assert(self@.lines[r] == self.grid.cells@[r]@);
        }
        if let Some(g) = self.primary {
            assert forall|r: int| 0 <= r < g.rows implies (#[trigger] g.grid_view().lines[r]).len()
                == g.cols by {
                assert(g.grid_view().lines[r] == g.cells@[r]@);
            }
        }
    }

    fn linefeed(&mut self)
        requires
            old(self).wf(),
        ensures
            final(self).wf(),
            final(self)@ == linefeed(old(self)@),
    {
        let (top, bottom) = self.scroll_region;
        if self.cursor.row == bottom {
            self.grid.scroll_region_up(top, bottom);
        } else if self.cursor.row + 1 < self.grid.rows {
            self.cursor.row = self.cursor.row + 1;
        }
        self.pending_wrap = false;
    }

    /// Handles a C0 control byte.
    pub fn execute(&mut self, byte: u8)
        requires
            old(self).wf(),
        ensures
            final(self).wf(),
            final(self)@ == execute(old(self)@, byte),
    {
        if byte == 0x08 {
            if self.cursor.col > 0 {
                self.cursor.col = self.cursor.col - 1;
            }
            self.pending_wrap = false;
        } else if byte == 0x09 {
            let step = 8 - self.cursor.col % 8;
            assert(self.cursor.col + step == (self.cursor.col / 8 + 1) * 8);
            if self.grid.cols - self.cursor.col > step {
                self.cursor.col = self.cursor.col + step;
            } else {
                self.cursor.col = self.grid.cols - 1;
            }
            self.pending_wrap = false;
        } else if byte == 0x0a {
            self.linefeed();
        } else if byte == 0x0d {
            self.cursor.col = 0;
            self.pending_wrap = false;
        }
    }

    fn put_char(&mut self, c: char)
        requires
            old(self).wf(),
        ensures
            final(self).wf(),
            final(self)@ == print(old(self)@, c),
    {
        if self.pending_wrap && self.auto_wrap_mode {
            self.linefeed();
            self.cursor.col = 0;
        }
        let cell = Cell { c, fg: self.current_fg, bg: self.current_bg, flags: self.current_flags };
        let row = self.cursor.row;
        let col = self.cursor.col;
        let ghost w = self@;
        if self.insert_mode {
            self.grid.cells[row].insert(col, cell);
            self.grid.cells[row].pop();
            assert(self.grid.lines() =~= w.lines.update(
                row as int,
                w.lines[row as int].insert(col as int, cell).drop_last(),
            ));
            assert forall|r: int| 0 <= r < self.grid.rows implies (#[trigger] self.grid.cells@[
                r
            ])@.len() == self.grid.cols by {
                assert(self.grid.lines()[r] == self.grid.cells@[r]@);
            }
        } else {
            self.grid.set_cell(row, col, cell);
        }
        if col + 1 < self.grid.cols {
            self.cursor.col = col + 1;
            self.pending_wrap = false;
        } else {
            self.pending_wrap = true;
        }
    }

    /// Prints `c` at the cursor with the current pen.
    pub fn print(&mut self, c: char)
        requires
            old(self).wf(),
        ensures
            final(self).wf(),
            final(self)@ == print(old(self)@, c),
    {
        self.put_char(c);
    }

    /// A blank screen of `rows` by `cols` with the given settings; colours that do not parse
    /// fall back to white on black, palette entries to the foreground.
    pub fn new(rows: usize, cols: usize, terminal: &TerminalConfig, colors: &ColorConfig) -> (t:
        TerminalPerformer)
        requires
            rows >= 1,
            cols >= 1,
        ensures
            t.wf(),
            t@ == initial(rows, cols, *terminal, *colors),
    {
        let default_fg = match parse_color(colors.foreground.as_str()) {
            Ok(c) => c,
            Err(_) => Rgb { r: 255, g: 255, b: 255 },
        };
        let default_bg = match parse_color(colors.background.as_str()) {
            Ok(c) => c,
            Err(_) => Rgb { r: 0, g: 0, b: 0 },
        };
        let mut palette: Vec<Rgb> = Vec::with_capacity(16);
        let mut i: usize = 0;
        while i < 16
            invariant
                i <= 16,
                palette@ == palette_of(*colors, default_fg).subrange(0, i as int),
            decreases 16 - i,
        {
            let setting = if i < 8 {
                colors.normal[i].as_str()
            } else {
                colors.bright[i - 8].as_str()
            };
            let c = match parse_color(setting) {
                Ok(c) => c,
                Err(_) => default_fg,
            };
            palette.push(c);
            i = i + 1;
            assert(palette@ =~= palette_of(*colors, default_fg).subrange(0, i as int));
        }
        assert(palette@ =~= palette_of(*colors, default_fg));
        let t = TerminalPerformer {
            grid: Grid::new(rows, cols, terminal.scrollback_lines as usize),
            cursor: Cursor { row: 0, col: 0, shape: terminal.cursor_shape, visible: true },
            default_fg,
            default_bg,
            current_fg: default_fg,
            current_bg: default_bg,
            current_flags: CellFlags { bits: 0 },
            saved_cursor: None,
            scroll_region: (0, rows - 1),
            insert_mode: false,
            auto_wrap_mode: true,
            origin_mode: false,
            cursor_keys_mode: false,
            pending_wrap: false,
            palette,
            title: String::new(),
            primary: None,
        };
        assert(t@ == initial(rows, cols, *terminal, *colors));
        t
    }

    /// Changes the screen size.
    pub fn resize(&mut self, rows: usize, cols: usize)
        requires
            old(self).wf(),
            rows >= 1,
            cols >= 1,
        ensures
            final(self).wf(),
            final(self)@ == resize(old(self)@, rows, cols),
    {
        self.grid.resize(rows, cols);
        if self.cursor.row >= rows {
            self.cursor.row = rows - 1;
        }
        if self.cursor.col >= cols {
            self.cursor.col = cols - 1;
        }
        self.scroll_region = (0, rows - 1);
        self.pending_wrap = false;
    }

    /// DECSC.
    pub fn save_cursor(&mut self)
        requires
            old(self).wf(),
        ensures
            final(self).wf(),
            final(self)@ == save_cursor(old(self)@),
    {
        self.saved_cursor = Some(
            SavedCursor {
                row: self.cursor.row,
                col: self.cursor.col,
                pen: Pen { fg: self.current_fg, bg: self.current_bg, flags: self.current_flags.bits },
            },
        );
    }

    /// DECRC.
    pub fn restore_cursor(&mut self)
        requires
            old(self).wf(),
        ensures
            final(self).wf(),
            final(self)@ == restore_cursor(old(self)@),
    {
        match self.saved_cursor {
            Some(s) => {
                self.cursor.row = if s.row < self.grid.rows {
                    s.row
                } else {
                    self.grid.rows - 1
                };
                self.cursor.col = if s.col < self.grid.cols {
                    s.col
                } else {
                    self.grid.cols - 1
                };
                self.current_fg = s.pen.fg;
                self.current_bg = s.pen.bg;
                self.current_flags = CellFlags { bits: s.pen.flags };
                self.pending_wrap = false;
            },
            None => {},
        }
    }

    fn reverse_index(&mut self)
        requires
            old(self).wf(),
        ensures
            final(self).wf(),
            final(self)@ == reverse_index(old(self)@),
    {
        let (top, bottom) = self.scroll_region;
        if self.cursor.row == top {
            self.grid.scroll_region_down(top, bottom);
        } else if self.cursor.row > 0 {
            self.cursor.row = self.cursor.row - 1;
        }
        self.pending_wrap = false;
    }

    /// Handles an escape sequence other than CSI.
    pub fn esc_dispatch(&mut self, intermediates: &[u8], _ignore: bool, byte: u8)
        requires
            old(self).wf(),
        ensures
            final(self).wf(),
            final(self)@ == esc(old(self)@, intermediates@, byte),
    {
        if intermediates.len() != 0 {
            return ;
        }
        if byte == 0x37 {
            self.save_cursor();
        } else if byte == 0x38 {
            self.restore_cursor();
        } else if byte == 0x44 {
            self.linefeed();
        } else if byte == 0x45 {
            self.linefeed();
            self.cursor.col = 0;
        } else if byte == 0x4d {
            self.reverse_index();
        }
    }

    /// Handles an operating system command.
    pub fn osc_dispatch(&mut self, params: &[Vec<u8>], _bell_terminated: bool)
        requires
            old(self).wf(),
        ensures
            final(self).wf(),
            final(self)@ == osc(old(self)@, bytes_view(params@)),
    {
        if params.len() >= 2 && params[0].len() == 1 && (params[0][0] == 0x30 || params[0][0]
            == 0x32) {
            assert(params@[0]@ =~= seq![params@[0]@[0]]);
            match decode_utf8_text(params[1].as_slice()) {
                Some(title) => {
                    self.title = title;
                },
                None => {},
            }
        } else {
            proof {
                if params@.len() >= 2 && params@[0]@.len() != 1 {
                    assert(params@[0]@.len() != seq![0x30u8].len());
                }
            }
        }
    }

    /// CUU.
    pub fn cursor_up(&mut self, n: u16)
        requires
            old(self).wf(),
        ensures
            final(self).wf(),
            final(self)@ == cursor_up(old(self)@, n as nat),
    {
        let n = n as usize;
        let floor = if self.cursor.row >= self.scroll_region.0 {
            self.scroll_region.0
        } else {
            0
        };
        if self.cursor.row - floor >= n {
            self.cursor.row = self.cursor.row - n;
        } else {
            self.cursor.row = floor;
        }
        self.pending_wrap = false;
    }

    /// CUD.
    pub fn cursor_down(&mut self, n: u16)
        requires
            old(self).wf(),
        ensures
            final(self).wf(),
            final(self)@ == cursor_down(old(self)@, n as nat),
    {
        let n = n as usize;
        let ceiling = if self.cursor.row <= self.scroll_region.1 {
            self.scroll_region.1
        } else {
            self.grid.rows - 1
        };
        if ceiling - self.cursor.row >= n {
            self.cursor.row = self.cursor.row + n;
        } else {
            self.cursor.row = ceiling;
        }
        self.pending_wrap = false;
    }

    /// CUF.
    pub fn cursor_forward(&mut self, n: u16)
        requires
            old(self).wf(),
        ensures
            final(self).wf(),
            final(self)@ == cursor_forward(old(self)@, n as nat),
    {
        let n = n as usize;
        if self.grid.cols - self.cursor.col > n {
            self.cursor.col = self.cursor.col + n;
        } else {
            self.cursor.col = self.grid.cols - 1;
        }
        self.pending_wrap = false;
    }

    /// CUB.
    pub fn cursor_backward(&mut self, n: u16)
        requires
            old(self).wf(),
        ensures
            final(self).wf(),
            final(self)@ == cursor_backward(old(self)@, n as nat),
    {
        let n = n as usize;
        if self.cursor.col >= n {
            self.cursor.col = self.cursor.col - n;
        } else {
            self.cursor.col = 0;
        }
        self.pending_wrap = false;
    }

    fn col_target(&self, p: u16) -> (c: usize)
        requires
            self.wf(),
            p >= 1,
        ensures
            c == col_target(self@, p as nat),
    {
        let p = p as usize;
        if p - 1 < self.grid.cols {
            p - 1
        } else {
            self.grid.cols - 1
        }
    }

    fn row_target(&self, p: u16) -> (r: usize)
        requires
            self.wf(),
            p >= 1,
        ensures
            r == row_target(self@, p as nat),
    {
        let p = p as usize;
        if self.origin_mode {
            if self.scroll_region.1 - self.scroll_region.0 >= p - 1 {
                self.scroll_region.0 + p - 1
            } else {
                self.scroll_region.1
            }
        } else if p - 1 < self.grid.rows {
            p - 1
        } else {
            self.grid.rows - 1
        }
    }

    /// CHA: to the one-based column `p`.
    pub fn cursor_to_col(&mut self, p: u16)
        requires
            old(self).wf(),
            p >= 1,
        ensures
            final(self).wf(),
            final(self)@ == cursor_to_col(old(self)@, p as nat),
    {
        self.cursor.col = self.col_target(p);
        self.pending_wrap = false;
    }

    /// VPA: to the one-based row `p`.
    pub fn cursor_to_row(&mut self, p: u16)
        requires
            old(self).wf(),
            p >= 1,
        ensures
            final(self).wf(),
            final(self)@ == cursor_to_row(old(self)@, p as nat),
    {
        self.cursor.row = self.row_target(p);
        self.pending_wrap = false;
    }

    /// CUP: to the one-based row `r` and column `c`.
    pub fn cursor_position(&mut self, r: u16, c: u16)
        requires
            old(self).wf(),
            r >= 1,
            c >= 1,
        ensures
            final(self).wf(),
            final(self)@ == cursor_position(old(self)@, r as nat, c as nat),
    {
        let row = self.row_target(r);
        let col = self.col_target(c);
        self.cursor.row = row;
        self.cursor.col = col;
        self.pending_wrap = false;
    }

    /// ED.
    pub fn erase_display(&mut self, mode: u16)
        requires
            old(self).wf(),
        ensures
            final(self).wf(),
            final(self)@ == erase_display(old(self)@, mode as nat),
    {
        let ghost v = old(self)@;
        let rows = self.grid.rows;
        let cols = self.grid.cols;
        let row = self.cursor.row;
        let col = self.cursor.col;
        proof {
            old(self).lemma_view_wf();
        }
        if mode == 0 {
            self.grid.erase_span(row, col, cols);
            self.grid.clear_rows(row + 1, rows);
            assert(self.grid.lines() =~= erase_display(v, 0).lines);
        } else if mode == 1 {
            self.grid.clear_rows(0, row);
            self.grid.erase_span(row, 0, col + 1);
            assert(self.grid.lines() =~= erase_display(v, 1).lines);
        } else if mode == 2 || mode == 3 {
            self.grid.clear_rows(0, rows);
            assert(self.grid.lines() =~= erase_display(v, 2).lines);
            if mode == 3 {
                self.grid.clear_history();
            }
        }
    }

    /// EL.
    pub fn erase_line(&mut self, mode: u16)
        requires
            old(self).wf(),
        ensures
            final(self).wf(),
            final(self)@ == erase_line(old(self)@, mode as nat),
    {
        let row = self.cursor.row;
        let col = self.cursor.col;
        let cols = self.grid.cols;
        if mode == 0 {
            self.grid.erase_span(row, col, cols);
        } else if mode == 1 {
            self.grid.erase_span(row, 0, col + 1);
        } else if mode == 2 {
            self.grid.clear_line(row);
        }
    }

    /// Shows the alternate screen.
    pub fn enter_alternate(&mut self)
        requires
            old(self).wf(),
        ensures
            final(self).wf(),
            final(self)@ == enter_alternate(old(self)@),
    {
        if self.primary.is_none() {
            let mut other = Grid::new(self.grid.rows, self.grid.cols, 0);
            std::mem::swap(&mut self.grid, &mut other);
            self.primary = Some(other);
            self.pending_wrap = false;
        }
    }

    /// Shows the main screen again.
    pub fn leave_alternate(&mut self)
        requires
            old(self).wf(),
        ensures
            final(self).wf(),
            final(self)@ == leave_alternate(old(self)@),
    {
        let rows = self.grid.rows;
        let cols = self.grid.cols;
        match self.primary.take() {
            Some(mut main) => {
                main.resize(rows, cols);
                self.grid = main;
                self.pending_wrap = false;
            },
            None => {},
        }
    }

    /// IL.
    pub fn insert_lines(&mut self, n: u16)
        requires
            old(self).wf(),
        ensures
            final(self).wf(),
            final(self)@ == insert_lines(old(self)@, n as nat),
    {
        let (top, bottom) = self.scroll_region;
        let row = self.cursor.row;
        if top <= row && row <= bottom {
            let k = if (n as usize) <= bottom - row + 1 {
                n as usize
            } else {
                bottom - row + 1
            };
            self.grid.insert_lines(row, bottom, k);
            self.pending_wrap = false;
        }
    }

    /// DL.
    pub fn delete_lines(&mut self, n: u16)
        requires
            old(self).wf(),
        ensures
            final(self).wf(),
            final(self)@ == delete_lines(old(self)@, n as nat),
    {
        let (top, bottom) = self.scroll_region;
        let row = self.cursor.row;
        if top <= row && row <= bottom {
            let k = if (n as usize) <= bottom - row + 1 {
                n as usize
            } else {
                bottom - row + 1
            };
            self.grid.delete_lines(row, bottom, k);
            self.pending_wrap = false;
        }
    }

    fn cells_within(&self, n: u16) -> (k: usize)
        requires
            self.wf(),
        ensures
            k == cells_within(self@, n as nat),
    {
        if (n as usize) <= self.grid.cols - self.cursor.col {
            n as usize
        } else {
            self.grid.cols - self.cursor.col
        }
    }

    /// DCH.
    pub fn delete_chars(&mut self, n: u16)
        requires
            old(self).wf(),
        ensures
            final(self).wf(),
            final(self)@ == delete_chars(old(self)@, n as nat),
    {
        let k = self.cells_within(n);
        self.grid.delete_cells(self.cursor.row, self.cursor.col, k);
        self.pending_wrap = false;
    }

    /// ICH.
    pub fn insert_chars(&mut self, n: u16)
        requires
            old(self).wf(),
        ensures
            final(self).wf(),
            final(self)@ == insert_chars(old(self)@, n as nat),
    {
        let k = self.cells_within(n);
        self.grid.insert_cells(self.cursor.row, self.cursor.col, k);
        self.pending_wrap = false;
    }

    /// SU.
    pub fn scroll_up(&mut self, n: u16)
        requires
            old(self).wf(),
        ensures
            final(self).wf(),
            final(self)@ == scroll_up(old(self)@, n as nat),
    {
        let (top, bottom) = self.scroll_region;
        let k = if (n as usize) <= bottom - top + 1 {
            n as usize
        } else {
            bottom - top + 1
        };
        self.grid.scroll_region_up_by(top, bottom, k);
    }

    /// SD.
    pub fn scroll_down(&mut self, n: u16)
        requires
            old(self).wf(),
        ensures
            final(self).wf(),
            final(self)@ == scroll_down(old(self)@, n as nat),
    {
        let (top, bottom) = self.scroll_region;
        let k = if (n as usize) <= bottom - top + 1 {
            n as usize
        } else {
            bottom - top + 1
        };
        self.grid.insert_lines(top, bottom, k);
    }

    /// DECSTBM: the one-based rows `[t, b]`, `b` 0 meaning the last row.
    pub fn set_scroll_region(&mut self, t: u16, b: u16)
        requires
            old(self).wf(),
            t >= 1,
        ensures
            final(self).wf(),
            final(self)@ == set_scroll_region(old(self)@, t as nat, b as nat),
    {
        let rows = self.grid.rows;
        let bottom = if b == 0 || (b as usize) > rows {
            rows
        } else {
            b as usize
        };
        let t = t as usize;
        if t < bottom {
            self.scroll_region = (t - 1, bottom - 1);
            self.cursor.row = if self.origin_mode {
                t - 1
            } else {
                0
            };
            self.cursor.col = 0;
            self.pending_wrap = false;
        }
    }

    fn set_mode(&mut self, mode: u16, on: bool, private: bool)
        requires
            old(self).wf(),
        ensures
            final(self).wf(),
            final(self)@ == if private {
                private_mode(old(self)@, mode as nat, on)
            } else {
                ansi_mode(old(self)@, mode as nat, on)
            },
    {
        if private {
            if mode == 1 {
                self.cursor_keys_mode = on;
            } else if mode == 6 {
                self.origin_mode = on;
                self.cursor.row = if on {
                    self.scroll_region.0
                } else {
                    0
                };
                self.cursor.col = 0;
                self.pending_wrap = false;
            } else if mode == 7 {
                self.auto_wrap_mode = on;
            } else if mode == 25 {
                self.cursor.visible = on;
            } else if mode == 1049 {
                if on {
                    self.enter_alternate();
                } else {
                    self.leave_alternate();
                }
            }
        } else if mode == 4 {
            self.insert_mode = on;
        }
    }

    /// SM / RM and, with `private`, DECSET / DECRST: each parameter names a mode to set (`on`)
    /// or reset.
    pub fn set_modes(&mut self, params: &[Vec<u16>], on: bool, private: bool)
        requires
            old(self).wf(),
        ensures
            final(self).wf(),
            final(self)@ == set_modes(
                old(self)@,
                params_view(params@),
                params@.len() as nat,
                on,
                private,
            ),
    {
        let mut i: usize = 0;
        while i < params.len()
            invariant
                i <= params@.len(),
                self.wf(),
                self@ == set_modes(old(self)@, params_view(params@), i as nat, on, private),
            decreases params@.len() - i,
        {
            let m = param_value(params, i);
            self.set_mode(m, on, private);
            i = i + 1;
        }
    }

    /// SGR.
    pub fn set_graphics(&mut self, params: &[Vec<u16>])
        requires
            old(self).wf(),
        ensures
            final(self).wf(),
            final(self)@ == set_graphics(old(self)@, params_view(params@)),
    {
        let pen = Pen { fg: self.current_fg, bg: self.current_bg, flags: self.current_flags.bits };
        let defaults = Pen { fg: self.default_fg, bg: self.default_bg, flags: 0 };
        let p = apply_sgr(pen, params, defaults, &self.palette);
        self.current_fg = p.fg;
        self.current_bg = p.bg;
        self.current_flags = CellFlags { bits: p.flags };
    }

    /// Handles a control sequence.
    pub fn csi_dispatch(
        &mut self,
        params: &[Vec<u16>],
        intermediates: &[u8],
        _ignore: bool,
        c: char,
    )
        requires
            old(self).wf(),
        ensures
            final(self).wf(),
            final(self)@ == csi(old(self)@, params_view(params@), intermediates@, c),
    {
        if intermediates.len() == 0 {
            let a0 = param_value(params, 0);
            let n0 = if a0 == 0 {
                1
            } else {
                a0
            };
            if c == 'A' {
                self.cursor_up(n0);
            } else if c == 'B' {
                self.cursor_down(n0);
            } else if c == 'C' {
                self.cursor_forward(n0);
            } else if c == 'D' {
                self.cursor_backward(n0);
            } else if c == 'G' || c == '`' {
                self.cursor_to_col(n0);
            } else if c == 'H' || c == 'f' {
                let a1 = param_value(params, 1);
                let n1 = if a1 == 0 {
                    1
                } else {
                    a1
                };
                self.cursor_position(n0, n1);
            } else if c == 'J' {
                self.erase_display(a0);
            } else if c == 'K' {
                self.erase_line(a0);
            } else if c == 'L' {
                self.insert_lines(n0);
            } else if c == 'M' {
                self.delete_lines(n0);
            } else if c == 'P' {
                self.delete_chars(n0);
            } else if c == '@' {
                self.insert_chars(n0);
            } else if c == 'S' {
                self.scroll_up(n0);
            } else if c == 'T' {
                self.scroll_down(n0);
            } else if c == 'd' {
                self.cursor_to_row(n0);
            } else if c == 'h' {
                self.set_modes(params, true, false);
            } else if c == 'l' {
                self.set_modes(params, false, false);
            } else if c == 'm' {
                self.set_graphics(params);
            } else if c == 'r' {
                let a1 = param_value(params, 1);
                self.set_scroll_region(n0, a1);
            } else if c == 's' {
                self.save_cursor();
            } else if c == 'u' {
                self.restore_cursor();
            }
        } else if intermediates.len() == 1 && intermediates[0] == 0x3f {
            assert(intermediates@ =~= seq![0x3fu8]);
            if c == 'h' {
                self.set_modes(params, true, true);
            } else if c == 'l' {
                self.set_modes(params, false, true);
            }
        } else {
            assert(intermediates@ != seq![0x3fu8]) by {
                if intermediates@.len() == 1 {
                    assert(intermediates@[0] != seq![0x3fu8][0]);
                }
            }
        }
    }
}

/// Whatever the parser hands the model, the cursor stays on the screen: every handler keeps the
/// model well formed, and a well-formed model has its cursor inside the grid.
pub proof fn lemma_cursor_on_screen(t: &TerminalPerformer)
    requires
        t.wf(),
    ensures
        t@.row < t@.rows,
        t@.col < t@.cols,
        t@.lines.len() == t@.rows,
        forall|r: int| 0 <= r < t@.rows ==> (#[trigger] t@.lines[r]).len() == t@.cols,
{
    t.lemma_view_wf();
}

/// Graphic rendition 0 sets the pen to the default colours with no attribute, whatever it was.
pub proof fn lemma_sgr_reset(v: ScreenView, params: Seq<Seq<u16>>)
    requires
        flat(params) == seq![0u16],
    ensures
        set_graphics(v, params).pen == (Pen { fg: v.default_fg, bg: v.default_bg, flags: 0 }),
{
    let d = Pen { fg: v.default_fg, bg: v.default_bg, flags: 0 };
    let vals = flat(params);
    assert(vals[0] == 0);
    assert(sgr_from(Pen { flags: 0, ..d }, vals, 1, d, v.palette) == Pen { flags: 0, ..d });
}

/// Where printing writes: at the cursor, or at the start of the next line when a pending wrap
/// is taken.
pub open spec fn print_target(v: ScreenView) -> (usize, usize) {
    if v.pending_wrap && v.auto_wrap {
        (linefeed(v).row, 0)
    } else {
        (v.row, v.col)
    }
}

proof fn lemma_linefeed_wf(v: ScreenView)
    requires
        v.wf(),
    ensures
        linefeed(v).wf(),
{
    let w = linefeed(v);
    if v.row == v.bottom {
        let s = v.lines.remove(v.top as int);
        assert forall|r: int| 0 <= r < v.rows implies (#[trigger] w.lines[r]).len() == v.cols by {
            if r < v.bottom {
                if r < v.top {
                    assert(s[r] == v.lines[r]);
                } else {
                    assert(s[r] == v.lines[r + 1]);
                }
                assert(w.lines[r] == s[r]);
            } else if r > v.bottom {
                assert(w.lines[r] == s[r - 1]);
                assert(s[r - 1] == v.lines[r]);
            }
        }
        if v.top == 0 {
            assert(w.history.len() <= v.scrollback_limit);
        }
    }
}

/// Printing writes the character with the current pen, and leaves the pen as it was, so later
/// prints use it too until the next graphic rendition.
pub proof fn lemma_print_uses_pen(v: ScreenView, c: char)
    requires
        v.wf(),
    ensures
        print(v, c).lines[print_target(v).0 as int][print_target(v).1 as int] == v.pen_cell(c),
        print(v, c).pen == v.pen,
        print_target(v).0 == print(v, c).row,
{
    lemma_linefeed_wf(v);
    let w = if v.pending_wrap && v.auto_wrap {
        ScreenView { col: 0, ..linefeed(v) }
    } else {
        v
    };
    let line = w.lines[w.row as int];
    assert(line.len() == v.cols);
    if v.insert_mode {
        assert(line.insert(w.col as int, v.pen_cell(c)).drop_last()[w.col as int] == v.pen_cell(c));
    }
}

/// Restoring the cursor brings back the position and pen that were saved, whatever happened in
/// between, as long as nothing else was saved and the screen still holds that position.
pub proof fn lemma_save_restore(v: ScreenView, w: ScreenView)
    requires
        w.saved == save_cursor(v).saved,
        v.row < w.rows,
        v.col < w.cols,
    ensures
        restore_cursor(w).row == v.row,
        restore_cursor(w).col == v.col,
        restore_cursor(w).pen == v.pen,
{
}

/// Carriage returns and line feeds never move the cursor right: a carriage return goes to the
/// first column and a line feed keeps the column, so CR, LF, CR ends in the first column.
pub proof fn lemma_cr_lf_column(v: ScreenView)
    requires
        v.wf(),
    ensures
        execute(v, 0x0d).col == 0,
        execute(v, 0x0a).col == v.col,
        execute(execute(v, 0x0d), 0x0a).col == 0,
        execute(execute(execute(v, 0x0d), 0x0a), 0x0d).col == 0,
{
}

} // verus!
