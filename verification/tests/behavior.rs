//! Scenario-level behavior: splits, alt screen, search, the prefix key
//! machine, the wire codec, ratios and swaps.

use wtmux::cell::Cell;
use wtmux::codec::Atom;
use wtmux::geometry::Rect;
use wtmux::grid::Grid;
use wtmux::input::{InputHandler, KeyAction};
use wtmux::keys::{parse_key, Key, KeyTable, Modifiers};
use wtmux::layout::{LayoutNode, Orientation};
use wtmux::pastebuffer::PasteBuffer;
use wtmux::session::Session;
use wtmux::terminal::Terminal;
use wtmux::window::{PaneState, Window};
use wtmux::PaneId;

fn geometry_of(geos: &Vec<(PaneId, Rect)>, pane: PaneId) -> Rect {
    for (id, rect) in geos.iter() {
        if *id == pane {
            return *rect;
        }
    }
    panic!("pane not found");
}

#[test]
fn horizontal_split_tiles_area() {
    // One pane in an 80x23 area, split horizontally: two 40-wide panes.
    let pane = PaneState::new("sh", 80, 23);
    let a = pane.id;
    let mut window = Window::new("w", 0, pane, Rect::new(0, 0, 80, 23));
    let b = window.split_pane("sh", true).unwrap();
    assert_eq!(window.pane_count(), 2);
    assert_eq!(window.active_pane, b);
    let geos = window.pane_geometries();
    assert_eq!(geometry_of(&geos, a), Rect::new(0, 0, 40, 23));
    assert_eq!(geometry_of(&geos, b), Rect::new(40, 0, 40, 23));
}

#[test]
fn close_restores_full_area() {
    let pane = PaneState::new("sh", 80, 23);
    let a = pane.id;
    let mut window = Window::new("w", 0, pane, Rect::new(0, 0, 80, 23));
    let b = window.split_pane("sh", true).unwrap();
    let empty = window.close_pane(b);
    assert!(!empty);
    assert_eq!(window.pane_count(), 1);
    let geos = window.pane_geometries();
    assert_eq!(geometry_of(&geos, a), Rect::new(0, 0, 80, 23));
}

#[test]
fn prefix_binding_dispatches_command() {
    // Ctrl-B then % yields the horizontal split command, no raw input.
    let mut handler = InputHandler::new();
    let r1 = handler.handle_key(
        Key::Char('b'),
        Modifiers { ctrl: true, alt: false, shift: false },
    );
    assert!(matches!(r1, KeyAction::Idle));
    let r2 = handler.handle_key(
        Key::Char('%'),
        Modifiers { ctrl: false, alt: false, shift: false },
    );
    match r2 {
        KeyAction::Command(c) => assert_eq!(c, "split-window -h"),
        _ => panic!("expected a command"),
    }
}

#[test]
fn unbound_key_after_prefix_sends_bytes() {
    let mut handler = InputHandler::new();
    handler.handle_key(Key::Char('b'), Modifiers { ctrl: true, alt: false, shift: false });
    let r = handler.handle_key(Key::Char('q'), Modifiers { ctrl: false, alt: false, shift: false });
    match r {
        KeyAction::SendBytes(b) => assert_eq!(b, vec![b'q']),
        _ => panic!("expected raw bytes"),
    }
}

fn put_row(grid: &mut Grid, row: u16, text: &str) {
    let mut col = 0u16;
    for ch in text.chars() {
        grid.set_cell(col, row, Cell::new(ch));
        col += 1;
    }
}

#[test]
fn search_forward_wraps() {
    let mut grid = Grid::new(10, 3);
    put_row(&mut grid, 0, "apple");
    put_row(&mut grid, 1, "banana");
    put_row(&mut grid, 2, "apricot");
    // Forward search starts after the cursor, so from (0,0) the next
    // occurrence of "ap" is in the third row, then the wrap finds (0,0).
    assert_eq!(grid.search("ap", 0, 0, true), Some((0, 2)));
    assert_eq!(grid.search("ap", 0, 2, true), Some((0, 0)));
    assert_eq!(grid.search("zz", 0, 0, true), None);
    assert_eq!(grid.search("AP", 0, 2, true), Some((0, 0)));
}

#[test]
fn alt_screen_round_trip() {
    let mut term = Terminal::new(80, 24);
    term.process_bytes(b"X");
    assert_eq!(term.cursor_pos(), (1, 0));
    term.process_bytes(b"\x1b[?1049h");
    assert_eq!(term.state.grid.cell(0, 0).ch, ' ');
    assert_eq!(term.cursor_pos(), (0, 0));
    term.process_bytes(b"Y");
    term.process_bytes(b"\x1b[?1049l");
    assert_eq!(term.state.grid.cell(0, 0).ch, 'X');
    assert_eq!(term.cursor_pos(), (1, 0));
}

#[test]
fn chunked_bytes_match_whole() {
    let mut whole = Terminal::new(20, 5);
    whole.process_bytes(b"ab\x1b[31mcd\r\nef");
    let mut chunked = Terminal::new(20, 5);
    for b in b"ab\x1b[31mcd\r\nef" {
        chunked.process_bytes(&[*b]);
    }
    for row in 0..5u16 {
        assert_eq!(whole.state.grid.row_text(row), chunked.state.grid.row_text(row));
    }
    assert_eq!(whole.cursor_pos(), chunked.cursor_pos());
}

#[test]
fn wide_glyph_writes_continuation() {
    let mut term = Terminal::new(10, 2);
    let text = "\u{4E2D}a";
    term.process_bytes(text.as_bytes());
    assert_eq!(term.state.grid.cell(0, 0).ch, '\u{4E2D}');
    assert_eq!(term.state.grid.cell(0, 0).width, 2);
    assert_eq!(term.state.grid.cell(1, 0).width, 0);
    assert_eq!(term.state.grid.cell(2, 0).ch, 'a');
}

#[test]
fn atoms_round_trip_via_payload() {
    let atoms = vec![
        Atom::U(7),
        Atom::S("hello".to_string()),
        Atom::B(vec![1, 2, 3]),
        Atom::U(u128::MAX),
        Atom::S(String::new()),
    ];
    let bytes = wtmux::codec::encode_atoms(&atoms);
    let back = wtmux::codec::decode_atoms(&bytes).expect("decodes");
    assert_eq!(back.len(), atoms.len());
    match (&back[0], &back[1], &back[2], &back[3], &back[4]) {
        (Atom::U(a), Atom::S(s), Atom::B(b), Atom::U(m), Atom::S(e)) => {
            assert_eq!(*a, 7);
            assert_eq!(s, "hello");
            assert_eq!(b, &vec![1, 2, 3]);
            assert_eq!(*m, u128::MAX);
            assert_eq!(e, "");
        }
        _ => panic!("wrong atoms"),
    }
}

#[test]
fn truncated_payload_is_rejected() {
    let atoms = vec![Atom::S("hello".to_string())];
    let bytes = wtmux::codec::encode_atoms(&atoms);
    assert!(wtmux::codec::decode_atoms(&bytes[..bytes.len() - 1]).is_none());
    assert!(wtmux::codec::decode_atoms(&[]).is_none());
}

#[test]
fn resize_pane_keeps_ratio_sum() {
    let p1 = PaneId::new();
    let p2 = PaneId::new();
    let mut layout = LayoutNode::leaf(p1);
    layout.split_pane(p1, p2, Orientation::Horizontal);
    layout.resize_pane(p1, wtmux::layout::Direction::Right, 1000);
    match &layout {
        LayoutNode::Split { ratios, .. } => {
            let sum: u32 = ratios.iter().sum();
            assert_eq!(sum, 10000);
            assert_eq!(ratios[0], 6000);
            assert_eq!(ratios[1], 4000);
            assert!(ratios.iter().all(|r| *r >= 500));
        }
        _ => panic!("expected a split"),
    }
}

#[test]
fn resize_pane_clamps_at_minimum() {
    let p1 = PaneId::new();
    let p2 = PaneId::new();
    let mut layout = LayoutNode::leaf(p1);
    layout.split_pane(p1, p2, Orientation::Horizontal);
    layout.resize_pane(p1, wtmux::layout::Direction::Right, 9000);
    match &layout {
        LayoutNode::Split { ratios, .. } => {
            let sum: u32 = ratios.iter().sum();
            assert_eq!(sum, 10000);
            assert_eq!(ratios[1], 500);
            assert_eq!(ratios[0], 9500);
        }
        _ => panic!("expected a split"),
    }
}

#[test]
fn swap_twice_is_identity() {
    let p1 = PaneId::new();
    let p2 = PaneId::new();
    let p3 = PaneId::new();
    let mut layout = LayoutNode::leaf(p1);
    layout.split_pane(p1, p2, Orientation::Horizontal);
    layout.split_pane(p2, p3, Orientation::Vertical);
    let before = layout.pane_ids();
    layout.swap_panes(p1, p3);
    let mid = layout.pane_ids();
    assert_ne!(before, mid);
    layout.swap_panes(p1, p3);
    assert_eq!(layout.pane_ids(), before);
}

#[test]
fn split_keeps_ids_in_step() {
    // Layout ids and the pane list agree after every split and close.
    let pane = PaneState::new("sh", 80, 23);
    let mut window = Window::new("w", 0, pane, Rect::new(0, 0, 80, 23));
    let b = window.split_pane("sh", true).unwrap();
    let c = window.split_pane("sh", false).unwrap();
    let layout_ids = window.layout.pane_ids();
    let pane_ids: Vec<PaneId> = window.panes.iter().map(|p| p.id).collect();
    assert_eq!(layout_ids, pane_ids);
    window.close_pane(b);
    let layout_ids = window.layout.pane_ids();
    let pane_ids: Vec<PaneId> = window.panes.iter().map(|p| p.id).collect();
    assert_eq!(layout_ids, pane_ids);
    assert!(pane_ids.contains(&c));
}

#[test]
fn session_window_cycling() {
    let mut s = Session::new("main", "sh", 80, 24, 0);
    s.new_window(Some("two"), "sh", 80, 24).unwrap();
    assert_eq!(s.windows.len(), 2);
    assert_eq!(s.active_window_idx, 1);
    s.next_window();
    assert_eq!(s.active_window_idx, 0);
    s.prev_window();
    assert_eq!(s.active_window_idx, 1);
    assert!(s.select_last_window());
    assert_eq!(s.active_window_idx, 0);
    assert!(s.select_window(1));
    assert_eq!(s.active_window_idx, 1);
}

#[test]
fn paste_buffer_bounded() {
    let mut pb = PasteBuffer::new(2);
    pb.push("a".to_string());
    pb.push("b".to_string());
    pb.push("c".to_string());
    assert_eq!(pb.len(), 2);
    assert_eq!(pb.top().unwrap(), "c");
    assert_eq!(pb.get(1).unwrap(), "b");
    assert!(pb.get(2).is_none());
}

#[test]
fn parse_key_forms() {
    let b = parse_key("C-b").unwrap();
    assert_eq!(b.key, Key::Char('b'));
    assert!(b.modifiers.ctrl);
    let up = parse_key("Up").unwrap();
    assert_eq!(up.key, Key::Up);
    let f5 = parse_key("F5").unwrap();
    assert_eq!(f5.key, Key::F(5));
    let meta = parse_key("M-x").unwrap();
    assert!(meta.modifiers.alt);
    assert_eq!(meta.key, Key::Char('x'));
    assert!(parse_key("NoSuchKey").is_none());
}

#[test]
fn key_table_bind_and_unbind() {
    let mut t = KeyTable::default_tmux_bindings();
    let b = parse_key("x").unwrap();
    assert_eq!(t.lookup(&b).unwrap(), "kill-pane");
    t.unbind(b.key, b.modifiers);
    assert!(t.lookup(&b).is_none());
    t.bind(b.key, b.modifiers, "kill-pane");
    assert_eq!(t.lookup(&b).unwrap(), "kill-pane");
}

#[test]
fn scroll_region_line_feed() {
    let mut term = Terminal::new(10, 4);
    term.process_bytes(b"\x1b[1;2raa\r\nbb\r\ncc");
    // Scroll region is rows 0..2; the third line feed scrolls inside it.
    assert_eq!(term.state.scroll_top, 0);
    assert_eq!(term.state.scroll_bottom, 2);
}

#[test]
fn row_text_trims_trailing_blanks() {
    let mut grid = Grid::new(10, 1);
    put_row(&mut grid, 0, "hi   ");
    assert_eq!(grid.row_text(0), "hi");
    assert_eq!(grid.row_text(5), "");
}
