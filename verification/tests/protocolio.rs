//! The wire codec on whole messages, the server dispatch loop, the
//! command executor, options, configuration text and the renderer.

use wtmux::codec::{decode_client, encode_client};
use wtmux::config::Config;
use wtmux::input::KeyAction;
use wtmux::keys::{key_to_bytes, Key, Modifiers};
use wtmux::options::{parse_bool, parse_u64, unquote};
use wtmux::protocol::{ClientMessage, CopyModeAction, Direction, ServerMessage, SessionTarget};
use wtmux::renderer::Renderer;
use wtmux::server::{dispatch, execute_command, ClientReg, PtyAction, ServerState};
use wtmux::statusbar::days_to_ymd;
use wtmux::ClientId;

fn roundtrip(m: ClientMessage) -> ClientMessage {
    let bytes = encode_client(m).expect("encodes");
    decode_client(&bytes).expect("decodes")
}

#[test]
fn client_messages_round_trip() {
    match roundtrip(ClientMessage::NewSession {
        name: Some("work".to_string()),
        command: None,
        cols: 80,
        rows: 24,
    }) {
        ClientMessage::NewSession { name, command, cols, rows } => {
            assert_eq!(name.as_deref(), Some("work"));
            assert!(command.is_none());
            assert_eq!((cols, rows), (80, 24));
        }
        _ => panic!("wrong variant"),
    }
    match roundtrip(ClientMessage::Attach {
        session: SessionTarget::Name("work".to_string()),
        cols: 100,
        rows: 40,
    }) {
        ClientMessage::Attach { session: SessionTarget::Name(n), cols: 100, rows: 40 } => {
            assert_eq!(n, "work");
        }
        _ => panic!("wrong variant"),
    }
    match roundtrip(ClientMessage::Input(vec![1, 2, 3, 255])) {
        ClientMessage::Input(b) => assert_eq!(b, vec![1, 2, 3, 255]),
        _ => panic!("wrong variant"),
    }
    match roundtrip(ClientMessage::Command("split-window -h".to_string())) {
        ClientMessage::Command(c) => assert_eq!(c, "split-window -h"),
        _ => panic!("wrong variant"),
    }
    match roundtrip(ClientMessage::CopyModeInput(CopyModeAction::SearchForward(
        "needle".to_string(),
    ))) {
        ClientMessage::CopyModeInput(CopyModeAction::SearchForward(q)) => {
            assert_eq!(q, "needle")
        }
        _ => panic!("wrong variant"),
    }
    match roundtrip(ClientMessage::SelectPane(Direction::Left)) {
        ClientMessage::SelectPane(Direction::Left) => {}
        _ => panic!("wrong variant"),
    }
    assert!(matches!(roundtrip(ClientMessage::Ping), ClientMessage::Ping));
    assert!(matches!(roundtrip(ClientMessage::Detach), ClientMessage::Detach));
}

#[test]
fn corrupt_bytes_rejected() {
    let bytes = encode_client(ClientMessage::Ping).unwrap();
    assert!(decode_client(&bytes[..bytes.len() - 1]).is_none());
    let mut garbled = bytes.clone();
    garbled[4] = 9; // an unknown atom kind
    assert!(decode_client(&garbled).is_none());
}

#[test]
fn dispatch_basics() {
    let mut state = ServerState::new("sh");
    let mut clients: Vec<ClientReg> = vec![ClientReg {
        id: ClientId::new(),
        session: None,
        cols: 80,
        rows: 24,
        copy_mode: None,
    }];
    let who = clients[0].id;
    let (reply, _) = dispatch(&mut state, &mut clients, who, ClientMessage::Ping, 0);
    assert!(matches!(reply, Some(ServerMessage::Pong)));
    let (reply, actions) = dispatch(
        &mut state,
        &mut clients,
        who,
        ClientMessage::NewSession { name: Some("s".to_string()), command: None, cols: 80, rows: 24 },
        7,
    );
    match reply {
        Some(ServerMessage::SessionCreated { name, .. }) => assert_eq!(name, "s"),
        _ => panic!("expected a created session"),
    }
    assert_eq!(state.sessions.len(), 1);
    assert!(matches!(actions.as_slice(), [PtyAction::Spawn { .. }]));
    // The client was attached by the creation, so input routes to a pane.
    let (reply, actions) = dispatch(
        &mut state,
        &mut clients,
        who,
        ClientMessage::Input(b"hi".to_vec()),
        8,
    );
    assert!(reply.is_none());
    match actions.as_slice() {
        [PtyAction::Write { bytes, .. }] => assert_eq!(bytes, b"hi"),
        _ => panic!("expected one write"),
    }
    let (reply, _) = dispatch(
        &mut state,
        &mut clients,
        who,
        ClientMessage::SplitPane { horizontal: true },
        9,
    );
    assert!(reply.is_none());
    assert_eq!(state.sessions[0].active_window().pane_count(), 2);
    let (reply, _) = dispatch(&mut state, &mut clients, who, ClientMessage::ListSessions, 10);
    match reply {
        Some(ServerMessage::SessionList(v)) => {
            assert_eq!(v.len(), 1);
            assert_eq!(v[0].pane_count, 2);
            assert_eq!(v[0].attached_clients, 1);
        }
        _ => panic!("expected the session list"),
    }
    let (reply, _) = dispatch(&mut state, &mut clients, who, ClientMessage::Detach, 11);
    assert!(matches!(reply, Some(ServerMessage::Detached)));
}

#[test]
fn execute_command_table() {
    let mut state = ServerState::new("sh");
    assert_eq!(
        execute_command(&mut state, "detach-client").unwrap().as_deref(),
        Some("__detach__")
    );
    assert_eq!(
        execute_command(&mut state, "copy-mode").unwrap().as_deref(),
        Some("__copy_mode__")
    );
    assert_eq!(
        execute_command(&mut state, "display-message hello").unwrap().as_deref(),
        Some("hello")
    );
    assert_eq!(
        execute_command(&mut state, "no-such-thing").unwrap().as_deref(),
        Some("Unknown command: no-such-thing")
    );
    assert_eq!(
        execute_command(&mut state, "source-file /tmp/conf").unwrap().as_deref(),
        Some("__source_file__:/tmp/conf")
    );
    let keys_text = execute_command(&mut state, "list-keys").unwrap().unwrap();
    assert!(keys_text.contains("split-window -h"));
    assert!(execute_command(&mut state, "set-option -g mouse on").unwrap().is_none());
    assert!(state.options.mouse);
    assert!(execute_command(&mut state, "clock-mode").unwrap().is_none());
}

#[test]
fn options_parsing() {
    assert_eq!(parse_bool("ON"), Some(true));
    assert_eq!(parse_bool("no"), Some(false));
    assert_eq!(parse_bool("maybe"), None);
    assert_eq!(parse_u64("12345"), Some(12345));
    assert_eq!(parse_u64(""), None);
    assert_eq!(parse_u64("12x"), None);
    assert_eq!(parse_u64("99999999999999999999999"), None);
    assert_eq!(unquote("\"hi\""), "hi");
    assert_eq!(unquote("'hi'"), "hi");
    assert_eq!(unquote("hi"), "hi");
}

#[test]
fn config_text_applies() {
    let mut config = Config::default_config("sh");
    config
        .apply_config_string("# comment\nset -g mouse on\nbind-key x kill-window\n\n")
        .unwrap();
    assert!(config.options.mouse);
    let b = wtmux::keys::parse_key("x").unwrap();
    assert_eq!(config.key_table.lookup(&b).unwrap(), "kill-window");
}

#[test]
fn key_byte_map() {
    assert_eq!(
        key_to_bytes(Key::Char('a'), Modifiers { ctrl: true, alt: false, shift: false }),
        Some(vec![1])
    );
    assert_eq!(
        key_to_bytes(Key::Char('x'), Modifiers { ctrl: false, alt: true, shift: false }),
        Some(vec![0x1B, b'x'])
    );
    assert_eq!(
        key_to_bytes(Key::Up, Modifiers { ctrl: false, alt: false, shift: false }),
        Some(b"\x1b[A".to_vec())
    );
    assert_eq!(
        key_to_bytes(Key::F(5), Modifiers { ctrl: false, alt: false, shift: false }),
        Some(b"\x1b[15~".to_vec())
    );
    assert_eq!(
        key_to_bytes(Key::F(13), Modifiers { ctrl: false, alt: false, shift: false }),
        None
    );
}

#[test]
fn renderer_frames() {
    let session = wtmux::session::Session::new("main", "sh", 40, 12, 0);
    let renderer = Renderer::new(40, 12);
    let frame = renderer.render(&session, 0);
    assert_eq!(&frame[..6], b"\x1b[?25l");
    assert_eq!(&frame[frame.len() - 6..], b"\x1b[?25h");
    let term = &session.windows[0].panes[0].terminal;
    let full = term.state.render();
    assert_eq!(&full[..9], b"\x1b[?25l\x1b[H");
}

#[test]
fn epoch_dates() {
    assert_eq!(days_to_ymd(0), (1970, 1, 1));
    assert_eq!(days_to_ymd(365), (1971, 1, 1));
    assert_eq!(days_to_ymd(19723), (2024, 1, 1));
    assert_eq!(days_to_ymd(19723 + 31 + 28), (2024, 2, 29));
}

#[test]
fn search_folds_unicode() {
    let mut grid = wtmux::grid::Grid::new(10, 1);
    let mut col = 0u16;
    for ch in "\u{c4}pfel".chars() {
        grid.set_cell(col, 0, wtmux::cell::Cell::new(ch));
        col += 1;
    }
    // The umlaut folds, so the lower-case query matches row text
    // "Äpfel" at column 0 after the wrap.
    assert_eq!(grid.search("\u{e4}pfel", 1, 0, true), Some((0, 0)));
}

#[test]
fn input_key_action_for_plain_keys() {
    let mut handler = wtmux::input::InputHandler::new();
    match handler.handle_key(Key::Char('h'), Modifiers { ctrl: false, alt: false, shift: false }) {
        KeyAction::SendBytes(b) => assert_eq!(b, vec![b'h']),
        _ => panic!("expected bytes"),
    }
}

#[test]
fn server_messages_round_trip() {
    let m = ServerMessage::SessionCreated {
        session_id: wtmux::SessionId::new(),
        name: "work".to_string(),
    };
    let id = match &m {
        ServerMessage::SessionCreated { session_id, .. } => *session_id,
        _ => unreachable!(),
    };
    let bytes = wtmux::codec::encode_server(m).expect("encodes");
    match wtmux::codec::decode_server(&bytes) {
        Some(ServerMessage::SessionCreated { session_id, name }) => {
            assert_eq!(session_id, id);
            assert_eq!(name, "work");
        }
        _ => panic!("wrong variant"),
    }
    let bytes = wtmux::codec::encode_server(ServerMessage::Pong).unwrap();
    assert!(matches!(wtmux::codec::decode_server(&bytes), Some(ServerMessage::Pong)));
    let bytes =
        wtmux::codec::encode_server(ServerMessage::Error("bad".to_string())).unwrap();
    match wtmux::codec::decode_server(&bytes) {
        Some(ServerMessage::Error(e)) => assert_eq!(e, "bad"),
        _ => panic!("wrong variant"),
    }
}

#[test]
fn frames_carry_length_prefix() {
    let payload = vec![7u8, 8, 9];
    let framed = wtmux::codec::frame_message(&payload).expect("small payload frames");
    assert_eq!(framed, vec![3, 0, 0, 0, 7, 8, 9]);
    assert_eq!(wtmux::codec::deframe_message(&framed), Some(vec![7, 8, 9]));
    // A frame whose length field disagrees with the body is rejected.
    assert_eq!(wtmux::codec::deframe_message(&framed[..6]), None);
}

#[test]
fn alt_screen_restores_scroll_region_and_saved_cursor() {
    let mut term = wtmux::terminal::Terminal::new(20, 10);
    // Set a scroll region, save the cursor, then visit the alternate
    // screen and come back: both survive untouched.
    term.process_bytes(b"\x1b[3;7r");
    term.process_bytes(b"\x1b7");
    term.process_bytes(b"hello");
    let before_top = term.state.scroll_top;
    let before_bottom = term.state.scroll_bottom;
    let before_saved = term.state.saved_cursor;
    term.process_bytes(b"\x1b[?1049h");
    term.process_bytes(b"\x1b[2;4r\x1b[HALT");
    term.process_bytes(b"\x1b[?1049l");
    assert_eq!(term.state.scroll_top, before_top);
    assert_eq!(term.state.scroll_bottom, before_bottom);
    assert_eq!(term.state.saved_cursor, before_saved);
    assert!(!term.state.using_alt_screen);
}

#[test]
fn config_parse_helpers_route() {
    let mut config = Config::default_config("sh");
    // Blank and comment text leaves the configuration untouched.
    config.apply_config_string("   \n# set -g mouse on\n\t\n").unwrap();
    assert!(!config.options.mouse);
    // parse_key handles stacked modifiers and named keys.
    let b = wtmux::keys::parse_key("C-M-Up").unwrap();
    assert!(b.modifiers.ctrl && b.modifiers.alt && !b.modifiers.shift);
    assert!(matches!(b.key, Key::Up));
    let b = wtmux::keys::parse_key("F12").unwrap();
    assert!(matches!(b.key, Key::F(12)));
    assert!(wtmux::keys::parse_key("F999").is_none());
    assert!(wtmux::keys::parse_key("nosuch").is_none());
}
