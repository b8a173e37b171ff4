use myterm::terminal::{Cell, CellFlags, Grid};

#[test]
fn test_cell_default() {
    let cell = Cell::default();
    assert_eq!(cell.c, ' ');
    assert_eq!(cell.flags, CellFlags::empty());
}

#[test]
fn test_cell_flags() {
    let mut flags = CellFlags::empty();
    assert!(!flags.contains(CellFlags::bold()));

    flags.insert(CellFlags::bold());
    assert!(flags.contains(CellFlags::bold()));

    flags.insert(CellFlags::italic());
    assert!(flags.contains(CellFlags::bold() | CellFlags::italic()));

    flags.remove(CellFlags::bold());
    assert!(!flags.contains(CellFlags::bold()));
    assert!(flags.contains(CellFlags::italic()));
}

#[test]
fn test_grid_creation() {
    let grid = Grid::new(24, 80, 1000);
    assert_eq!(grid.rows, 24);
    assert_eq!(grid.cols, 80);
    assert_eq!(grid.scrollback_limit, 1000);
    assert_eq!(grid.cells.len(), 24);
    assert_eq!(grid.cells[0].len(), 80);

    for row in &grid.cells {
        for cell in row {
            assert_eq!(cell.c, ' ');
            assert_eq!(cell.flags, CellFlags::empty());
        }
    }
}

#[test]
fn test_grid_resize() {
    let mut grid = Grid::new(24, 80, 1000);

    grid.resize(30, 120);
    assert_eq!(grid.rows, 30);
    assert_eq!(grid.cols, 120);
    assert_eq!(grid.cells.len(), 30);
    assert_eq!(grid.cells[0].len(), 120);

    grid.resize(20, 60);
    assert_eq!(grid.rows, 20);
    assert_eq!(grid.cols, 60);
    assert_eq!(grid.cells.len(), 20);
    assert_eq!(grid.cells[0].len(), 60);
}

#[test]
fn test_grid_scroll_up() {
    let mut grid = Grid::new(3, 3, 10);

    for col in 0..3 {
        grid.cells[0][col].c = 'A';
        grid.cells[1][col].c = 'B';
        grid.cells[2][col].c = 'C';
    }

    grid.scroll_up(1);

    for col in 0..3 {
        assert_eq!(grid.cells[0][col].c, 'B');
        assert_eq!(grid.cells[1][col].c, 'C');
        assert_eq!(grid.cells[2][col].c, ' ');
    }

    assert_eq!(grid.scrollback.len(), 1);
    for col in 0..3 {
        assert_eq!(grid.scrollback[0][col].c, 'A');
    }
}

#[test]
fn test_grid_clear() {
    let mut grid = Grid::new(3, 3, 10);

    for row in 0..3 {
        for col in 0..3 {
            grid.cells[row][col].c = 'X';
            grid.cells[row][col].flags = CellFlags::bold();
        }
    }

    grid.clear();

    for row in &grid.cells {
        for cell in row {
            assert_eq!(cell.c, ' ');
            assert_eq!(cell.flags, CellFlags::empty());
        }
    }
}

#[test]
fn test_grid_clear_line() {
    let mut grid = Grid::new(3, 3, 10);

    for row in 0..3 {
        for col in 0..3 {
            grid.cells[row][col].c = 'X';
        }
    }

    grid.clear_line(1);

    for col in 0..3 {
        assert_eq!(grid.cells[0][col].c, 'X');
        assert_eq!(grid.cells[1][col].c, ' ');
        assert_eq!(grid.cells[2][col].c, 'X');
    }
}

#[test]
fn grid_scroll_down_keeps_scrollback() {
    let mut grid = Grid::new(3, 2, 10);
    for col in 0..2 {
        grid.cells[0][col].c = 'A';
        grid.cells[1][col].c = 'B';
        grid.cells[2][col].c = 'C';
    }
    grid.scroll_up(1);
    assert_eq!(grid.scrollback.len(), 1);
    grid.scroll_down(1);
    assert_eq!(grid.scrollback.len(), 1);
    assert_eq!(grid.scrollback[0][0].c, 'A');
    for col in 0..2 {
        assert_eq!(grid.cells[0][col].c, ' ');
        assert_eq!(grid.cells[1][col].c, 'B');
        assert_eq!(grid.cells[2][col].c, 'C');
    }
    grid.scroll_down(7);
    for row in &grid.cells {
        for cell in row {
            assert_eq!(cell.c, ' ');
        }
    }
    assert_eq!(grid.scrollback.len(), 1);
}
