use vstd::prelude::*;
use crate::input::{key_bytes, Key};

verus! {

/// What the window hands to the terminal.
#[derive(Clone, Copy, Debug, PartialEq, Eq, Structural)]
pub enum Event {
    Resize(u32, u32),
    Key(Key),
    Close,
}

/// Pixels of one character cell, across and down.
pub const CELL_WIDTH: u32 = 8;
pub const CELL_HEIGHT: u32 = 16;

/// How many cells of `cell` pixels fit in `pixels`, at least one and at most `u16::MAX`.
pub open spec fn cells_in(pixels: u32, cell: u32) -> u16 {
    if pixels / cell == 0 {
        1
    } else if pixels / cell > 0xffff {
        0xffff
    } else {
        (pixels / cell) as u16
    }
}

/// What the event loop does next.
#[derive(Clone, Debug, PartialEq, Eq)]
pub enum LoopStep {
    /// Give the shell and the screen this many columns and rows, then redraw.
    Resize { cols: u16, rows: u16 },
    /// Send these bytes to the shell (when there are any), then redraw.
    Send(Vec<u8>),
    /// Leave the loop.
    Stop,
}

/// The grid size, columns then rows, for a window of `width` by `height` pixels.
pub fn grid_size(width: u32, height: u32, cell_width: u32, cell_height: u32) -> (r: (u16, u16))
    requires
        cell_width >= 1,
        cell_height >= 1,
    ensures
        r == (cells_in(width, cell_width), cells_in(height, cell_height)),
{
    let cols = width / cell_width;
    let rows = height / cell_height;
    let c: u16 = if cols == 0 {
        1
    } else if cols > 0xffff {
        0xffff
    } else {
        cols as u16
    };
    let r: u16 = if rows == 0 {
        1
    } else if rows > 0xffff {
        0xffff
    } else {
        rows as u16
    };
    (c, r)
}

/// The step for an event from the window: a resize becomes a grid size, a key its bytes, a
/// close the end of the loop.
pub fn step_for_event(event: &Event) -> (r: LoopStep)
    ensures
        match *event {
            Event::Resize(w, h) => r == LoopStep::Resize {
                cols: cells_in(w, CELL_WIDTH),
                rows: cells_in(h, CELL_HEIGHT),
            },
            Event::Key(k) => r matches LoopStep::Send(b) && b@ == key_bytes(k),
            Event::Close => r == LoopStep::Stop,
        },
{
    match event {
        Event::Resize(w, h) => {
            let (cols, rows) = grid_size(*w, *h, CELL_WIDTH, CELL_HEIGHT);
            LoopStep::Resize { cols, rows }
        },
        Event::Key(k) => LoopStep::Send(k.to_bytes()),
        Event::Close => LoopStep::Stop,
    }
}

} // verus!
