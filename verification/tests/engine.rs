//! Grid, scrollback, terminal and layout behavior.

use wtmux::cell::Cell;
use wtmux::geometry::Rect;
use wtmux::grid::Grid;
use wtmux::layout::{LayoutNode, Orientation};
use wtmux::scrollback::Scrollback;
use wtmux::terminal::Terminal;
use wtmux::PaneId;

#[test]
fn test_new_grid() {
    let grid = Grid::new(80, 24);
    assert_eq!(grid.cols, 80);
    assert_eq!(grid.rows, 24);
    assert_eq!(grid.cell(0, 0).ch, ' ');
}

#[test]
fn test_set_cell() {
    let mut grid = Grid::new(80, 24);
    grid.set_cell(5, 3, Cell::new('A'));
    assert_eq!(grid.cell(5, 3).ch, 'A');
}

#[test]
fn test_scroll_up() {
    let mut grid = Grid::new(80, 3);
    grid.set_cell(0, 0, Cell::new('A'));
    grid.set_cell(0, 1, Cell::new('B'));
    grid.set_cell(0, 2, Cell::new('C'));
    grid.scroll_up(0, 3);
    assert_eq!(grid.cell(0, 0).ch, 'B');
    assert_eq!(grid.cell(0, 1).ch, 'C');
    assert_eq!(grid.cell(0, 2).ch, ' ');
}

#[test]
fn test_resize() {
    let mut grid = Grid::new(80, 24);
    grid.set_cell(0, 0, Cell::new('X'));
    grid.resize(40, 12);
    assert_eq!(grid.cols, 40);
    assert_eq!(grid.rows, 12);
    assert_eq!(grid.cell(0, 0).ch, 'X');
}

#[test]
fn test_scrollback_push_and_get() {
    let mut sb = Scrollback::new(100);
    sb.push_line(vec![Cell::new('A')]);
    sb.push_line(vec![Cell::new('B')]);
    assert_eq!(sb.get_line(0).unwrap()[0].ch, 'B');
    assert_eq!(sb.get_line(1).unwrap()[0].ch, 'A');
}

#[test]
fn test_scrollback_max_lines() {
    let mut sb = Scrollback::new(2);
    sb.push_line(vec![Cell::new('A')]);
    sb.push_line(vec![Cell::new('B')]);
    sb.push_line(vec![Cell::new('C')]);
    assert_eq!(sb.len(), 2);
    assert_eq!(sb.get_line(0).unwrap()[0].ch, 'C');
    assert_eq!(sb.get_line(1).unwrap()[0].ch, 'B');
}

#[test]
fn test_process_simple_text() {
    let mut term = Terminal::new(80, 24);
    term.process_bytes(b"Hello");
    assert_eq!(term.state.grid.cell(0, 0).ch, 'H');
    assert_eq!(term.state.grid.cell(1, 0).ch, 'e');
    assert_eq!(term.state.grid.cell(4, 0).ch, 'o');
    assert_eq!(term.cursor_pos(), (5, 0));
}

#[test]
fn test_process_newline() {
    let mut term = Terminal::new(80, 24);
    term.process_bytes(b"Hello\r\nWorld");
    assert_eq!(term.state.grid.cell(0, 0).ch, 'H');
    assert_eq!(term.state.grid.cell(0, 1).ch, 'W');
}

#[test]
fn test_cursor_movement() {
    let mut term = Terminal::new(80, 24);
    term.process_bytes(b"\x1b[5;10H");
    assert_eq!(term.cursor_pos(), (9, 4));
}

#[test]
fn test_clear_screen() {
    let mut term = Terminal::new(80, 24);
    term.process_bytes(b"Hello\x1b[2J");
    assert_eq!(term.state.grid.cell(0, 0).ch, ' ');
}

#[test]
fn test_sgr_colors() {
    let mut term = Terminal::new(80, 24);
    term.process_bytes(b"\x1b[31mRed");
    assert_eq!(term.state.grid.cell(0, 0).fg, wtmux::cell::Color::Indexed(1));
}

fn geometry_of(geos: &Vec<(PaneId, Rect)>, pane: PaneId) -> Rect {
    for (id, rect) in geos.iter() {
        if *id == pane {
            return *rect;
        }
    }
    panic!("pane not found");
}

#[test]
fn test_leaf_geometry() {
    let pane = PaneId::new();
    let layout = LayoutNode::leaf(pane);
    let area = Rect::new(0, 0, 80, 24);
    let geos = layout.calculate_geometries(area);
    assert_eq!(geometry_of(&geos, pane), area);
}

#[test]
fn test_horizontal_split() {
    let p1 = PaneId::new();
    let p2 = PaneId::new();
    let mut layout = LayoutNode::leaf(p1);
    layout.split_pane(p1, p2, Orientation::Horizontal);

    let area = Rect::new(0, 0, 80, 24);
    let geos = layout.calculate_geometries(area);
    assert_eq!(geometry_of(&geos, p1).width, 40);
    assert_eq!(geometry_of(&geos, p2).width, 40);
    assert_eq!(geometry_of(&geos, p1).x, 0);
    assert_eq!(geometry_of(&geos, p2).x, 40);
}

#[test]
fn test_vertical_split() {
    let p1 = PaneId::new();
    let p2 = PaneId::new();
    let mut layout = LayoutNode::leaf(p1);
    layout.split_pane(p1, p2, Orientation::Vertical);

    let area = Rect::new(0, 0, 80, 24);
    let geos = layout.calculate_geometries(area);
    assert_eq!(geometry_of(&geos, p1).height, 12);
    assert_eq!(geometry_of(&geos, p2).height, 12);
}

#[test]
fn test_remove_pane() {
    let p1 = PaneId::new();
    let p2 = PaneId::new();
    let mut layout = LayoutNode::leaf(p1);
    layout.split_pane(p1, p2, Orientation::Horizontal);
    assert!(layout.remove_pane(p2));
    assert_eq!(layout.pane_ids(), vec![p1]);
}
