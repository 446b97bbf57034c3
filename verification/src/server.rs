//! The server's mutable root and the tmux-style command executor.

use vstd::prelude::*;

use crate::chars::{chars_of_str, string_from_chars};
use crate::options::{copy_str, parse_u64, str_eq, Options};
use crate::pastebuffer::PasteBuffer;
use crate::protocol::{ClientMessage, Direction, ServerMessage};
use crate::keys::KeyTable;
use crate::session::Session;
use crate::layout;

verus! {

/// Everything the server owns: the sessions, the options and the shared
/// paste buffer.
pub struct ServerState {
    pub sessions: Vec<Session>,
    pub options: Options,
    pub key_table: KeyTable,
    pub paste_buffer: PasteBuffer,
}

impl ServerState {
    /// Every session is well-formed and the key table has no duplicate
    /// bindings.
    pub open spec fn inv(&self) -> bool {
        &&& forall|i: int| 0 <= i < self.sessions@.len() ==> (#[trigger] self.sessions@[i]).inv()
        &&& self.key_table.wf()
    }

    pub fn new(default_shell: &str) -> (r: ServerState)
        ensures
            r.inv(),
            r.sessions@.len() == 0,
    {
        ServerState {
            sessions: Vec::new(),
            options: Options::new_default(default_shell),
            key_table: KeyTable::default_tmux_bindings(),
            paste_buffer: PasteBuffer::new(50),
        }
    }

    /// Whether a session exists to act on.
    pub fn has_session(&self) -> (r: bool)
        ensures
            r == (self.sessions@.len() > 0),
    {
        self.sessions.len() > 0
    }
}

/// The completed tokens and the token under construction after reading
/// the text: blanks close the current token.
pub open spec fn tok_fold(s: Seq<char>) -> (Seq<Seq<char>>, Seq<char>)
    decreases s.len(),
{
    if s.len() == 0 {
        (Seq::empty(), Seq::empty())
    } else {
        let (ps, cur) = tok_fold(s.drop_last());
        let c = s.last();
        if c == ' ' || c == '\t' || c == '\n' || c == '\r' {
            if cur.len() > 0 {
                (ps.push(cur), Seq::empty())
            } else {
                (ps, Seq::empty())
            }
        } else {
            (ps, cur.push(c))
        }
    }
}

/// A command line's blank-separated tokens.
pub open spec fn tokens_of(s: Seq<char>) -> Seq<Seq<char>> {
    let (ps, cur) = tok_fold(s);
    if cur.len() > 0 {
        ps.push(cur)
    } else {
        ps
    }
}

/// The views of a token list.
pub open spec fn token_views(v: Seq<String>) -> Seq<Seq<char>> {
    v.map_values(|t: String| t@)
}

/// Split a command line on blanks.
#[verifier::loop_isolation(false)]
fn tokenize(s: &str) -> (r: Vec<String>)
    ensures
        token_views(r@) == tokens_of(s@),
{
    let cs = chars_of_str(s);
    let n = cs.len();
    let mut parts: Vec<String> = Vec::new();
    let mut cur: Vec<char> = Vec::new();
    let mut i: usize = 0;
    while i < n
        invariant
            n == cs@.len(),
            cs@ == s@,
            i <= n,
            (token_views(parts@), cur@) == tok_fold(s@.subrange(0, i as int)),
        decreases n - i,
    {
        proof {
            let pre = s@.subrange(0, i + 1 as int);
            assert(pre.drop_last() =~= s@.subrange(0, i as int));
            assert(pre.last() == s@[i as int]);
        }
        let c = cs[i];
        if c == ' ' || c == '\t' || c == '\n' || c == '\r' {
            if cur.len() > 0 {
                let t = string_from_chars(&cur);
                parts.push(t);
                cur = Vec::new();
                proof {
                    assert(token_views(parts@) =~= token_views(parts@.drop_last()).push(
                        parts@.last()@,
                    ));
                }
            }
        } else {
            cur.push(c);
        }
        i += 1;
    }
    proof {
        assert(s@.subrange(0, n as int) =~= s@);
    }
    if cur.len() > 0 {
        let t = string_from_chars(&cur);
        parts.push(t);
        proof {
            assert(token_views(parts@) =~= token_views(parts@.drop_last()).push(parts@.last()@));
        }
    }
    parts
}

/// Whether some token equals the given flag.
fn has_flag(parts: &Vec<String>, flag: &str) -> (r: bool) {
    let n = parts.len();
    let mut i: usize = 0;
    while i < n
        invariant
            n == parts@.len(),
            i <= n,
        decreases n - i,
    {
        if str_eq(parts[i].as_str(), flag) {
            return true;
        }
        i += 1;
    }
    false
}

/// The token right after the given flag, if both exist.
fn flag_value(parts: &Vec<String>, flag: &str) -> (r: Option<String>) {
    let n = parts.len();
    let mut i: usize = 0;
    while i < n
        invariant
            n == parts@.len(),
            i <= n,
        decreases n - i,
    {
        if str_eq(parts[i].as_str(), flag) {
            if i + 1 < n {
                return Some(parts[i + 1].clone());
            }
            return None;
        }
        i += 1;
    }
    None
}

/// Parse and run one tmux-style command against the server state.
///
/// A recognised command mutates the first session and returns `Ok(None)`;
/// commands the caller must carry out itself (detaching, copy mode,
/// pasting, the command prompt, session listing and killing) return their
/// marker text; an unknown command reports itself. The sessions stay
/// well-formed whatever the command says.
pub fn execute_command(state: &mut ServerState, command: &str) -> (r: Result<
    Option<String>,
    crate::WtmuxError,
>)
    requires
        old(state).inv(),
    ensures
        final(state).inv(),
        tokens_of(command@).len() == 0 ==> (r matches Ok(o) && o is None) && *final(state)
            == *old(state),
        tokens_of(command@).len() >= 1 && tokens_of(command@)[0] == "detach-client"@ ==> (
        r matches Ok(o) && o matches Some(m) && m@ == "__detach__"@) && *final(state) == *old(
            state,
        ),
        tokens_of(command@).len() >= 1 && tokens_of(command@)[0] == "copy-mode"@ ==> (
        r matches Ok(o) && o matches Some(m) && m@ == "__copy_mode__"@) && *final(state) == *old(
            state,
        ),
        tokens_of(command@).len() >= 1 && tokens_of(command@)[0] == "paste-buffer"@ ==> (
        r matches Ok(o) && o matches Some(m) && m@ == "__paste__"@) && *final(state) == *old(
            state,
        ),
        tokens_of(command@).len() >= 1 && tokens_of(command@)[0] == "command-prompt"@ ==> (
        r matches Ok(o) && o matches Some(m) && m@ == "__command_prompt__"@) && *final(state)
            == *old(state),
        tokens_of(command@).len() >= 1 && tokens_of(command@)[0] == "list-sessions"@ ==> (
        r matches Ok(o) && o matches Some(m) && m@ == "__list_sessions__"@) && *final(state)
            == *old(state),
        tokens_of(command@).len() >= 2 && tokens_of(command@)[0] == "display-message"@ ==> (
        r matches Ok(o) && o matches Some(m) && m@ == tokens_of(command@)[1]) && *final(state)
            == *old(state),
        tokens_of(command@).len() >= 1 && tokens_of(command@)[0] == "clock-mode"@ ==> (
        r matches Ok(o) && o is None) && *final(state) == *old(state),
        tokens_of(command@).len() >= 1 && tokens_of(command@)[0] == "list-keys"@ ==> (
        r matches Ok(o) && o is Some) && *final(state) == *old(state),
        tokens_of(command@).len() >= 1 && tokens_of(command@)[0] == "split-window"@ && old(
            state,
        ).sessions@.len() >= 1 ==> (r matches Ok(o) ==> o is None && ({
            let aw = old(state).sessions@[0].active_window_idx as int;
            final(state).sessions@[0].windows@[aw].panes@.len() == old(
                state,
            ).sessions@[0].windows@[aw].panes@.len() + 1
        })),
        tokens_of(command@).len() >= 1 && !(tokens_of(command@)[0] == "split-window"@ || tokens_of(command@)[0] == "new-window"@ || tokens_of(command@)[0] == "select-window"@ || tokens_of(command@)[0] == "next-window"@ || tokens_of(command@)[0] == "previous-window"@ || tokens_of(command@)[0] == "select-pane"@ || tokens_of(command@)[0] == "resize-pane"@ || tokens_of(command@)[0] == "kill-pane"@ || tokens_of(command@)[0] == "kill-window"@ || tokens_of(command@)[0] == "rename-window"@ || tokens_of(command@)[0] == "rename-session"@ || tokens_of(command@)[0] == "swap-pane"@ || tokens_of(command@)[0] == "last-pane"@ || tokens_of(command@)[0] == "next-layout"@ || tokens_of(command@)[0] == "detach-client"@ || tokens_of(command@)[0] == "copy-mode"@ || tokens_of(command@)[0] == "paste-buffer"@ || tokens_of(command@)[0] == "command-prompt"@ || tokens_of(command@)[0] == "list-sessions"@ || tokens_of(command@)[0] == "kill-session"@ || tokens_of(command@)[0] == "set-option"@ || tokens_of(command@)[0] == "set"@ || tokens_of(command@)[0] == "source-file"@ || tokens_of(command@)[0] == "source"@ || tokens_of(command@)[0] == "display-message"@ || tokens_of(command@)[0] == "clock-mode"@ || tokens_of(command@)[0] == "last-window"@ || tokens_of(command@)[0] == "list-keys"@) ==> (r matches Ok(o) && o matches Some(m)
            && m@ == "Unknown command: "@ + tokens_of(command@)[0]) && *final(state) == *old(
            state,
        ),
        final(state).key_table == old(state).key_table,
        final(state).paste_buffer == old(state).paste_buffer,
        tokens_of(command@).len() >= 1 && !(tokens_of(command@)[0] == "set-option"@ || tokens_of(
            command@,
        )[0] == "set"@) ==> final(state).options == old(state).options,
        tokens_of(command@).len() >= 1 && tokens_of(command@)[0] == "next-window"@ && old(
            state,
        ).sessions@.len() >= 1 ==> (r matches Ok(o) && o is None) && ({
            let s0 = old(state).sessions@[0];
            let s1 = final(state).sessions@[0];
            s1.windows@ == s0.windows@ && s1.active_window_idx as int == (if s0.active_window_idx
                + 1 < s0.windows@.len() {
                s0.active_window_idx + 1
            } else {
                0int
            })
        }),
        tokens_of(command@).len() >= 1 && tokens_of(command@)[0] == "previous-window"@ && old(
            state,
        ).sessions@.len() >= 1 ==> (r matches Ok(o) && o is None) && ({
            let s0 = old(state).sessions@[0];
            let s1 = final(state).sessions@[0];
            s1.windows@ == s0.windows@ && s1.active_window_idx as int == (
            if s0.active_window_idx == 0 {
                s0.windows@.len() - 1
            } else {
                s0.active_window_idx - 1
            })
        }),
        tokens_of(command@).len() >= 2 && tokens_of(command@)[0] == "rename-session"@ && old(
            state,
        ).sessions@.len() >= 1 ==> (r matches Ok(o) && o is None)
            && final(state).sessions@[0].name@ == tokens_of(command@)[1],
{
    proof {
            reveal_strlit("split-window");
            assert("split-window"@.len() == 12);
            reveal_strlit("new-window");
            assert("new-window"@.len() == 10);
            reveal_strlit("select-window");
            assert("select-window"@.len() == 13);
            reveal_strlit("next-window");
            assert("next-window"@.len() == 11);
            reveal_strlit("previous-window");
            assert("previous-window"@.len() == 15);
            reveal_strlit("select-pane");
            assert("select-pane"@.len() == 11);
            reveal_strlit("resize-pane");
            assert("resize-pane"@.len() == 11);
            reveal_strlit("kill-pane");
            assert("kill-pane"@.len() == 9);
            reveal_strlit("kill-window");
            assert("kill-window"@.len() == 11);
            reveal_strlit("rename-window");
            assert("rename-window"@.len() == 13);
            reveal_strlit("rename-session");
            assert("rename-session"@.len() == 14);
            reveal_strlit("swap-pane");
            assert("swap-pane"@.len() == 9);
            reveal_strlit("last-pane");
            assert("last-pane"@.len() == 9);
            reveal_strlit("next-layout");
            assert("next-layout"@.len() == 11);
            reveal_strlit("detach-client");
            assert("detach-client"@.len() == 13);
            reveal_strlit("copy-mode");
            assert("copy-mode"@.len() == 9);
            reveal_strlit("paste-buffer");
            assert("paste-buffer"@.len() == 12);
            reveal_strlit("command-prompt");
            assert("command-prompt"@.len() == 14);
            reveal_strlit("list-sessions");
            assert("list-sessions"@.len() == 13);
            reveal_strlit("kill-session");
            assert("kill-session"@.len() == 12);
            reveal_strlit("set-option");
            assert("set-option"@.len() == 10);
            reveal_strlit("set");
            assert("set"@.len() == 3);
            reveal_strlit("source-file");
            assert("source-file"@.len() == 11);
            reveal_strlit("source");
            assert("source"@.len() == 6);
            reveal_strlit("display-message");
            assert("display-message"@.len() == 15);
            reveal_strlit("clock-mode");
            assert("clock-mode"@.len() == 10);
            reveal_strlit("last-window");
            assert("last-window"@.len() == 11);
            reveal_strlit("list-keys");
            assert("list-keys"@.len() == 9);
            assert("split-window"@[0] == 's');
            assert("paste-buffer"@[0] == 'p');
            assert("split-window"@ != "paste-buffer"@);
            assert("split-window"@[0] == 's');
            assert("kill-session"@[0] == 'k');
            assert("split-window"@ != "kill-session"@);
            assert("paste-buffer"@[0] == 'p');
            assert("kill-session"@[0] == 'k');
            assert("paste-buffer"@ != "kill-session"@);
            assert("new-window"@[0] == 'n');
            assert("set-option"@[0] == 's');
            assert("new-window"@ != "set-option"@);
            assert("new-window"@[0] == 'n');
            assert("clock-mode"@[0] == 'c');
            assert("new-window"@ != "clock-mode"@);
            assert("set-option"@[0] == 's');
            assert("clock-mode"@[0] == 'c');
            assert("set-option"@ != "clock-mode"@);
            assert("select-window"@[0] == 's');
            assert("rename-window"@[0] == 'r');
            assert("select-window"@ != "rename-window"@);
            assert("select-window"@[0] == 's');
            assert("detach-client"@[0] == 'd');
            assert("select-window"@ != "detach-client"@);
            assert("select-window"@[0] == 's');
            assert("list-sessions"@[0] == 'l');
            assert("select-window"@ != "list-sessions"@);
            assert("rename-window"@[0] == 'r');
            assert("detach-client"@[0] == 'd');
            assert("rename-window"@ != "detach-client"@);
            assert("rename-window"@[0] == 'r');
            assert("list-sessions"@[0] == 'l');
            assert("rename-window"@ != "list-sessions"@);
            assert("detach-client"@[0] == 'd');
            assert("list-sessions"@[0] == 'l');
            assert("detach-client"@ != "list-sessions"@);
            assert("next-window"@[0] == 'n');
            assert("select-pane"@[0] == 's');
            assert("next-window"@ != "select-pane"@);
            assert("next-window"@[0] == 'n');
            assert("resize-pane"@[0] == 'r');
            assert("next-window"@ != "resize-pane"@);
            assert("next-window"@[0] == 'n');
            assert("kill-window"@[0] == 'k');
            assert("next-window"@ != "kill-window"@);
            assert("next-window"@[5] == 'w');
            assert("next-layout"@[5] == 'l');
            assert("next-window"@ != "next-layout"@);
            assert("next-window"@[0] == 'n');
            assert("source-file"@[0] == 's');
            assert("next-window"@ != "source-file"@);
            assert("next-window"@[0] == 'n');
            assert("last-window"@[0] == 'l');
            assert("next-window"@ != "last-window"@);
            assert("select-pane"@[0] == 's');
            assert("resize-pane"@[0] == 'r');
            assert("select-pane"@ != "resize-pane"@);
            assert("select-pane"@[0] == 's');
            assert("kill-window"@[0] == 'k');
            assert("select-pane"@ != "kill-window"@);
            assert("select-pane"@[0] == 's');
            assert("next-layout"@[0] == 'n');
            assert("select-pane"@ != "next-layout"@);
            assert("select-pane"@[1] == 'e');
            assert("source-file"@[1] == 'o');
            assert("select-pane"@ != "source-file"@);
            assert("select-pane"@[0] == 's');
            assert("last-window"@[0] == 'l');
            assert("select-pane"@ != "last-window"@);
            assert("resize-pane"@[0] == 'r');
            assert("kill-window"@[0] == 'k');
            assert("resize-pane"@ != "kill-window"@);
            assert("resize-pane"@[0] == 'r');
            assert("next-layout"@[0] == 'n');
            assert("resize-pane"@ != "next-layout"@);
            assert("resize-pane"@[0] == 'r');
            assert("source-file"@[0] == 's');
            assert("resize-pane"@ != "source-file"@);
            assert("resize-pane"@[0] == 'r');
            assert("last-window"@[0] == 'l');
            assert("resize-pane"@ != "last-window"@);
            assert("kill-window"@[0] == 'k');
            assert("next-layout"@[0] == 'n');
            assert("kill-window"@ != "next-layout"@);
            assert("kill-window"@[0] == 'k');
            assert("source-file"@[0] == 's');
            assert("kill-window"@ != "source-file"@);
            assert("kill-window"@[0] == 'k');
            assert("last-window"@[0] == 'l');
            assert("kill-window"@ != "last-window"@);
            assert("next-layout"@[0] == 'n');
            assert("source-file"@[0] == 's');
            assert("next-layout"@ != "source-file"@);
            assert("next-layout"@[0] == 'n');
            assert("last-window"@[0] == 'l');
            assert("next-layout"@ != "last-window"@);
            assert("source-file"@[0] == 's');
            assert("last-window"@[0] == 'l');
            assert("source-file"@ != "last-window"@);
            assert("previous-window"@[0] == 'p');
            assert("display-message"@[0] == 'd');
            assert("previous-window"@ != "display-message"@);
            assert("kill-pane"@[0] == 'k');
            assert("swap-pane"@[0] == 's');
            assert("kill-pane"@ != "swap-pane"@);
            assert("kill-pane"@[0] == 'k');
            assert("last-pane"@[0] == 'l');
            assert("kill-pane"@ != "last-pane"@);
            assert("kill-pane"@[0] == 'k');
            assert("copy-mode"@[0] == 'c');
            assert("kill-pane"@ != "copy-mode"@);
            assert("kill-pane"@[0] == 'k');
            assert("list-keys"@[0] == 'l');
            assert("kill-pane"@ != "list-keys"@);
            assert("swap-pane"@[0] == 's');
            assert("last-pane"@[0] == 'l');
            assert("swap-pane"@ != "last-pane"@);
            assert("swap-pane"@[0] == 's');
            assert("copy-mode"@[0] == 'c');
            assert("swap-pane"@ != "copy-mode"@);
            assert("swap-pane"@[0] == 's');
            assert("list-keys"@[0] == 'l');
            assert("swap-pane"@ != "list-keys"@);
            assert("last-pane"@[0] == 'l');
            assert("copy-mode"@[0] == 'c');
            assert("last-pane"@ != "copy-mode"@);
            assert("last-pane"@[1] == 'a');
            assert("list-keys"@[1] == 'i');
            assert("last-pane"@ != "list-keys"@);
            assert("copy-mode"@[0] == 'c');
            assert("list-keys"@[0] == 'l');
            assert("copy-mode"@ != "list-keys"@);
            assert("rename-session"@[0] == 'r');
            assert("command-prompt"@[0] == 'c');
            assert("rename-session"@ != "command-prompt"@);
    }
    let parts = tokenize(command);
    if parts.len() == 0 {
        proof {
            assert(token_views(parts@).len() == 0);
        }
        return Ok(None);
    }
    let head = parts[0].as_str();
    proof {
        assert(head@ == tokens_of(command@)[0]);
    }
    if str_eq(head, "split-window") {
        let horizontal = has_flag(&parts, "-h");
        let shell = state.options.default_shell.clone();
        if state.sessions.len() > 0 {
            let s = &mut state.sessions[0];
            let w = s.active_window_mut();
            let res = w.split_pane(shell.as_str(), horizontal);
            proof {
                assert forall|q: int| 0 <= q < state.sessions@.len() implies (
                #[trigger] state.sessions@[q]).inv() by {
                    if q != 0 {
                        assert(state.sessions@[q] == old(state).sessions@[q]);
                    }
                }
            }
            match res {
                Ok(_) => Ok(None),
                Err(e) => Err(e),
            }
        } else {
            Ok(None)
        }
    } else if str_eq(head, "new-window") {
        let name = flag_value(&parts, "-n");
        let shell = state.options.default_shell.clone();
        if state.sessions.len() > 0 {
            let s = &mut state.sessions[0];
            let cols = s.active_window().area_width();
            let rows = s.active_window().area_height();
            if s.next_window_index < usize::MAX {
                let name_ref: Option<&str> = match &name {
                    Some(n) => Some(n.as_str()),
                    None => None,
                };
                let _ = s.new_window(name_ref, shell.as_str(), cols, rows);
            }
            proof {
                assert forall|q: int| 0 <= q < state.sessions@.len() implies (
                #[trigger] state.sessions@[q]).inv() by {
                    if q != 0 {
                        assert(state.sessions@[q] == old(state).sessions@[q]);
                    }
                }
            }
        }
        Ok(None)
    } else if str_eq(head, "select-window") {
        match flag_value(&parts, "-t") {
            Some(t) => {
                match parse_u64(t.as_str()) {
                    Some(idx) => {
                        with_first_session(state, SessionOp::SelectWindow(idx as usize));
                    },
                    None => {},
                }
            },
            None => {},
        }
        Ok(None)
    } else if str_eq(head, "next-window") {
        with_first_session(state, SessionOp::NextWindow);
        Ok(None)
    } else if str_eq(head, "previous-window") {
        with_first_session(state, SessionOp::PrevWindow);
        Ok(None)
    } else if str_eq(head, "last-window") {
        with_first_session(state, SessionOp::LastWindow);
        Ok(None)
    } else if str_eq(head, "select-pane") {
        match flag_value(&parts, "-t") {
            Some(t) => {
                if str_eq(t.as_str(), ":.+") {
                    with_first_session(state, SessionOp::NextPane);
                    return Ok(None);
                }
            },
            None => {},
        }
        if has_flag(&parts, "-U") {
            with_first_session(state, SessionOp::SelectPane(Direction::Up));
        } else if has_flag(&parts, "-D") {
            with_first_session(state, SessionOp::SelectPane(Direction::Down));
        } else if has_flag(&parts, "-L") {
            with_first_session(state, SessionOp::SelectPane(Direction::Left));
        } else if has_flag(&parts, "-R") {
            with_first_session(state, SessionOp::SelectPane(Direction::Right));
        }
        Ok(None)
    } else if str_eq(head, "resize-pane") {
        if has_flag(&parts, "-Z") {
            with_first_session(state, SessionOp::ToggleZoom);
            return Ok(None);
        }
        let amount: u16 = if parts.len() > 0 {
            match parse_u64(parts[parts.len() - 1].as_str()) {
                Some(v) => if v <= u16::MAX as u64 {
                    v as u16
                } else {
                    1
                },
                None => 1,
            }
        } else {
            1
        };
        if has_flag(&parts, "-U") {
            with_first_session(state, SessionOp::ResizePane(Direction::Up, amount));
        } else if has_flag(&parts, "-D") {
            with_first_session(state, SessionOp::ResizePane(Direction::Down, amount));
        } else if has_flag(&parts, "-L") {
            with_first_session(state, SessionOp::ResizePane(Direction::Left, amount));
        } else if has_flag(&parts, "-R") {
            with_first_session(state, SessionOp::ResizePane(Direction::Right, amount));
        }
        Ok(None)
    } else if str_eq(head, "kill-pane") {
        with_first_session(state, SessionOp::KillPane);
        Ok(None)
    } else if str_eq(head, "kill-window") {
        with_first_session(state, SessionOp::KillWindow);
        Ok(None)
    } else if str_eq(head, "rename-window") {
        if parts.len() > 1 {
            with_first_session(state, SessionOp::RenameWindow(parts[1].clone()));
        }
        Ok(None)
    } else if str_eq(head, "rename-session") {
        if parts.len() > 1 {
            with_first_session(state, SessionOp::RenameSession(parts[1].clone()));
        }
        Ok(None)
    } else if str_eq(head, "swap-pane") {
        let up = has_flag(&parts, "-U");
        with_first_session(state, SessionOp::SwapPane(up));
        Ok(None)
    } else if str_eq(head, "last-pane") {
        with_first_session(state, SessionOp::LastPane);
        Ok(None)
    } else if str_eq(head, "next-layout") {
        with_first_session(state, SessionOp::NextLayout);
        Ok(None)
    } else if str_eq(head, "detach-client") {
        Ok(Some(copy_str("__detach__")))
    } else if str_eq(head, "copy-mode") {
        Ok(Some(copy_str("__copy_mode__")))
    } else if str_eq(head, "paste-buffer") {
        Ok(Some(copy_str("__paste__")))
    } else if str_eq(head, "command-prompt") {
        Ok(Some(copy_str("__command_prompt__")))
    } else if str_eq(head, "list-sessions") {
        Ok(Some(copy_str("__list_sessions__")))
    } else if str_eq(head, "kill-session") {
        match flag_value(&parts, "-t") {
            Some(t) => {
                let mut marker = copy_str("__kill_session__:");
                let cs = chars_of_str(t.as_str());
                let mut i: usize = 0;
                while i < cs.len()
                    invariant
                        i <= cs@.len(),
                    decreases cs@.len() - i,
                {
                    crate::chars::push_char(&mut marker, cs[i]);
                    i += 1;
                }
                Ok(Some(marker))
            },
            None => Ok(None),
        }
    } else if str_eq(head, "set-option") || str_eq(head, "set") {
        let mut idx: usize = 1;
        if parts.len() > 1 && str_eq(parts[1].as_str(), "-g") {
            idx = 2;
        }
        if parts.len() > idx + 1 {
            match state.options.set(parts[idx].as_str(), parts[idx + 1].as_str()) {
                Ok(_) => Ok(None),
                Err(e) => Ok(Some(e)),
            }
        } else {
            Ok(None)
        }
    } else if str_eq(head, "clock-mode") {
        Ok(None)
    } else if str_eq(head, "list-keys") {
        let mut text = String::new();
        let n = state.key_table.bindings.len();
        let mut i: usize = 0;
        while i < n
            invariant
                n == state.key_table.bindings@.len(),
                i <= n,
            decreases n - i,
        {
            append_str(&mut text, state.key_table.bindings[i].1.as_str());
            crate::chars::push_char(&mut text, '\n');
            i += 1;
        }
        Ok(Some(text))
    } else if str_eq(head, "source-file") || str_eq(head, "source") {
        if parts.len() > 1 {
            let mut marker = copy_str("__source_file__:");
            append_str(&mut marker, parts[1].as_str());
            Ok(Some(marker))
        } else {
            Ok(None)
        }
    } else if str_eq(head, "display-message") {
        if parts.len() > 1 {
            proof {
                assert(parts@[1]@ == tokens_of(command@)[1]);
            }
            Ok(Some(parts[1].clone()))
        } else {
            Ok(None)
        }
    } else {
        let mut text = copy_str("Unknown command: ");
        append_str(&mut text, head);
        Ok(Some(text))
    }
}

/// Append a string slice to an owned string.
fn append_str(s: &mut String, t: &str)
    ensures
        final(s)@ == old(s)@ + t@,
{
    let cs = chars_of_str(t);
    let n = cs.len();
    let mut i: usize = 0;
    while i < n
        invariant
            n == cs@.len(),
            cs@ == t@,
            i <= n,
            s@ =~= old(s)@ + t@.subrange(0, i as int),
        decreases n - i,
    {
        crate::chars::push_char(s, cs[i]);
        proof {
            assert(s@ =~= old(s)@ + t@.subrange(0, i + 1 as int));
        }
        i += 1;
    }
    proof {
        assert(old(s)@ + t@.subrange(0, n as int) =~= old(s)@ + t@);
    }
}

/// The window- and session-level mutations the executor can ask for.
pub enum SessionOp {
    SelectWindow(usize),
    NextWindow,
    PrevWindow,
    LastWindow,
    NextPane,
    SelectPane(Direction),
    ToggleZoom,
    ResizePane(Direction, u16),
    KillPane,
    KillWindow,
    RenameWindow(String),
    RenameSession(String),
    SwapPane(bool),
    LastPane,
    NextLayout,
}

/// Apply one mutation to the first session; a session emptied of windows
/// is removed.
fn with_first_session(state: &mut ServerState, op: SessionOp)
    requires
        old(state).inv(),
    ensures
        final(state).inv(),
        final(state).options == old(state).options,
        final(state).key_table == old(state).key_table,
        final(state).paste_buffer == old(state).paste_buffer,
        old(state).sessions@.len() == 0 ==> *final(state) == *old(state),
        old(state).sessions@.len() >= 1 && op is NextWindow ==> ({
            let s0 = old(state).sessions@[0];
            let s1 = final(state).sessions@[0];
            s1.windows@ == s0.windows@ && s1.active_window_idx as int == (if s0.active_window_idx
                + 1 < s0.windows@.len() {
                s0.active_window_idx + 1
            } else {
                0int
            })
        }),
        old(state).sessions@.len() >= 1 && op is PrevWindow ==> ({
            let s0 = old(state).sessions@[0];
            let s1 = final(state).sessions@[0];
            s1.windows@ == s0.windows@ && s1.active_window_idx as int == (
            if s0.active_window_idx == 0 {
                s0.windows@.len() - 1
            } else {
                s0.active_window_idx - 1
            })
        }),
        old(state).sessions@.len() >= 1 && (op matches SessionOp::RenameSession(nm))
            ==> final(state).sessions@[0].name == (op->RenameSession_0),
{
    if state.sessions.len() == 0 {
        return ;
    }
    with_session_at(state, 0, op);
}

/// Apply one mutation to the session the client is attached to, if any.
fn with_client_session(
    state: &mut ServerState,
    clients: &Vec<ClientReg>,
    who: crate::ClientId,
    op: SessionOp,
)
    requires
        old(state).inv(),
    ensures
        final(state).inv(),
        final(state).options == old(state).options,
        final(state).key_table == old(state).key_table,
        final(state).paste_buffer == old(state).paste_buffer,
        op is NextWindow ==> *final(state) == *old(state) || exists|i: int|
            0 <= i < old(state).sessions@.len() && final(state).sessions@.len() == old(
                state,
            ).sessions@.len() && (forall|q: int|
                0 <= q < old(state).sessions@.len() && q != i ==> final(state).sessions@[q] == old(
                    state,
                ).sessions@[q]) && ({
                let s0 = old(state).sessions@[i];
                let s1 = (#[trigger] final(state).sessions@[i]);
                s1.windows@ == s0.windows@ && s1.active_window_idx as int == (
                if s0.active_window_idx + 1 < s0.windows@.len() {
                    s0.active_window_idx + 1
                } else {
                    0int
                })
            }),
        op is PrevWindow ==> *final(state) == *old(state) || exists|i: int|
            0 <= i < old(state).sessions@.len() && final(state).sessions@.len() == old(
                state,
            ).sessions@.len() && (forall|q: int|
                0 <= q < old(state).sessions@.len() && q != i ==> final(state).sessions@[q] == old(
                    state,
                ).sessions@[q]) && ({
                let s0 = old(state).sessions@[i];
                let s1 = (#[trigger] final(state).sessions@[i]);
                s1.windows@ == s0.windows@ && s1.active_window_idx as int == (
                if s0.active_window_idx == 0 {
                    s0.windows@.len() - 1
                } else {
                    s0.active_window_idx - 1
                })
            }),
        op matches SessionOp::RenameSession(nm) ==> *final(state) == *old(state) || exists|i: int|
            0 <= i < old(state).sessions@.len() && final(state).sessions@.len() == old(
                state,
            ).sessions@.len() && (#[trigger] final(state).sessions@[i]).name
                == (op->RenameSession_0),
{
    match client_session_idx(state, clients, who) {
        Some(si) => with_session_at(state, si, op),
        None => {},
    }
}

/// Apply one mutation to the session at `si`; a session emptied of
/// windows is removed.
fn with_session_at(state: &mut ServerState, si: usize, op: SessionOp)
    requires
        old(state).inv(),
        si < old(state).sessions@.len(),
    ensures
        final(state).inv(),
        final(state).options == old(state).options,
        final(state).key_table == old(state).key_table,
        final(state).paste_buffer == old(state).paste_buffer,
        !(op is KillPane || op is KillWindow) ==> final(state).sessions@.len() == old(
            state,
        ).sessions@.len() && (forall|q: int|
            0 <= q < old(state).sessions@.len() && q != si ==> final(state).sessions@[q] == old(
                state,
            ).sessions@[q]),
        op is NextWindow ==> ({
            let s0 = old(state).sessions@[si as int];
            let s1 = final(state).sessions@[si as int];
            s1.windows@ == s0.windows@ && s1.active_window_idx as int == (if s0.active_window_idx
                + 1 < s0.windows@.len() {
                s0.active_window_idx + 1
            } else {
                0int
            })
        }),
        op is PrevWindow ==> ({
            let s0 = old(state).sessions@[si as int];
            let s1 = final(state).sessions@[si as int];
            s1.windows@ == s0.windows@ && s1.active_window_idx as int == (
            if s0.active_window_idx == 0 {
                s0.windows@.len() - 1
            } else {
                s0.active_window_idx - 1
            })
        }),
        op is LastWindow || op is SelectWindow ==> final(state).sessions@[si as int].windows@
            == old(state).sessions@[si as int].windows@,
        (op matches SessionOp::SelectWindow(idx) && exists|k: int|
            0 <= k < old(state).sessions@[si as int].windows@.len() && (#[trigger] old(
                state,
            ).sessions@[si as int].windows@[k]).index == idx) ==> ({
            let s1 = final(state).sessions@[si as int];
            s1.windows@[s1.active_window_idx as int].index == (op->SelectWindow_0)
        }),
        op matches SessionOp::RenameSession(nm) ==> ({
            let s0 = old(state).sessions@[si as int];
            let s1 = final(state).sessions@[si as int];
            s1.name == nm && s1.windows@ == s0.windows@ && s1.active_window_idx
                == s0.active_window_idx
        }),
{
    let mut remove_session = false;
    {
        let s = &mut state.sessions[si];
        match op {
            SessionOp::SelectWindow(idx) => {
                let _ = s.select_window(idx);
            },
            SessionOp::NextWindow => s.next_window(),
            SessionOp::PrevWindow => s.prev_window(),
            SessionOp::LastWindow => {
                let _ = s.select_last_window();
            },
            SessionOp::NextPane => s.active_window_mut().select_next_pane(),
            SessionOp::SelectPane(d) => {
                let ld = to_layout_dir(d);
                s.active_window_mut().select_pane_direction(ld);
            },
            SessionOp::ToggleZoom => s.active_window_mut().toggle_zoom(),
            SessionOp::ResizePane(d, amount) => {
                let ld = to_layout_dir(d);
                s.active_window_mut().resize_pane_direction(ld, amount);
            },
            SessionOp::KillPane => {
                if s.active_window().pane_count() <= 1 {
                    let win = s.active_window().id;
                    if s.close_window(win) {
                        remove_session = true;
                    }
                } else {
                    let pane = s.active_window().active_pane;
                    let _ = s.active_window_mut().close_pane(pane);
                }
            },
            SessionOp::KillWindow => {
                let win = s.active_window().id;
                if s.close_window(win) {
                    remove_session = true;
                }
            },
            SessionOp::RenameWindow(name) => {
                s.active_window_mut().name = name;
            },
            SessionOp::RenameSession(name) => {
                s.name = name;
            },
            SessionOp::SwapPane(up) => s.active_window_mut().swap_pane(up),
            SessionOp::LastPane => s.active_window_mut().select_last_pane(),
            SessionOp::NextLayout => s.active_window_mut().next_layout(),
        }
    }
    if remove_session {
        state.sessions.remove(si);
        proof {
            assert forall|q: int| 0 <= q < state.sessions@.len() implies (
            #[trigger] state.sessions@[q]).inv() by {
                if q < si {
                    assert(state.sessions@[q] == old(state).sessions@[q]);
                } else {
                    assert(state.sessions@[q] == old(state).sessions@[q + 1]);
                }
            }
        }
    } else {
        proof {
            assert forall|q: int| 0 <= q < state.sessions@.len() implies (
            #[trigger] state.sessions@[q]).inv() by {
                if q != si {
                    assert(state.sessions@[q] == old(state).sessions@[q]);
                }
            }
        }
    }
}

/// The layout-level direction of a protocol direction.
pub fn to_layout_dir(d: Direction) -> (r: layout::Direction)
    ensures
        d is Up <==> r is Up,
        d is Down <==> r is Down,
        d is Left <==> r is Left,
        d is Right <==> r is Right,
{
    match d {
        Direction::Up => layout::Direction::Up,
        Direction::Down => layout::Direction::Down,
        Direction::Left => layout::Direction::Left,
        Direction::Right => layout::Direction::Right,
    }
}


/// One connected client: its registration and its copy-mode overlay.
pub struct ClientReg {
    pub id: crate::ClientId,
    pub session: Option<crate::SessionId>,
    pub cols: u16,
    pub rows: u16,
    pub copy_mode: Option<crate::copymode::CopyMode>,
}

/// The pseudo-terminal work a message asks the caller to do: the engine
/// decides, the caller performs the process I/O.
pub enum PtyAction {
    /// Write these bytes to the pane's process.
    Write { pane: crate::PaneId, bytes: Vec<u8> },
    /// Spawn this command in a pseudo-terminal for the pane.
    Spawn { pane: crate::PaneId, command: String },
}

/// The index of the client registration for `who`, if any.
fn find_client(clients: &Vec<ClientReg>, who: crate::ClientId) -> (r: Option<usize>)
    ensures
        match r {
            Some(i) => i < clients@.len() && clients@[i as int].id == who,
            None => forall|q: int| 0 <= q < clients@.len() ==> (#[trigger] clients@[q]).id != who,
        },
{
    let n = clients.len();
    let mut i: usize = 0;
    while i < n
        invariant
            n == clients@.len(),
            i <= n,
            forall|q: int| 0 <= q < i ==> (#[trigger] clients@[q]).id != who,
        decreases n - i,
    {
        if clients[i].id == who {
            return Some(i);
        }
        i += 1;
    }
    None
}

/// The index of the session with the given id, if any.
fn find_session(sessions: &Vec<Session>, id: crate::SessionId) -> (r: Option<usize>)
    ensures
        match r {
            Some(i) => i < sessions@.len() && sessions@[i as int].id == id,
            None => forall|q: int| 0 <= q < sessions@.len() ==> (#[trigger] sessions@[q]).id != id,
        },
{
    let n = sessions.len();
    let mut i: usize = 0;
    while i < n
        invariant
            n == sessions@.len(),
            i <= n,
            forall|q: int| 0 <= q < i ==> (#[trigger] sessions@[q]).id != id,
        decreases n - i,
    {
        if sessions[i].id == id {
            return Some(i);
        }
        i += 1;
    }
    None
}

/// The index of the first session with the given name, if any.
fn find_session_by_name(sessions: &Vec<Session>, name: &str) -> (r: Option<usize>)
    ensures
        match r {
            Some(i) => i < sessions@.len(),
            None => true,
        },
{
    let n = sessions.len();
    let mut i: usize = 0;
    while i < n
        invariant
            n == sessions@.len(),
            i <= n,
        decreases n - i,
    {
        if crate::options::str_eq(sessions[i].name.as_str(), name) {
            return Some(i);
        }
        i += 1;
    }
    None
}

/// The session index the client is attached to, if any.
fn client_session_idx(
    state: &ServerState,
    clients: &Vec<ClientReg>,
    who: crate::ClientId,
) -> (r: Option<usize>)
    ensures
        match r {
            Some(i) => i < state.sessions@.len() && exists|c: int|
                0 <= c < clients@.len() && (#[trigger] clients@[c]).id == who && clients@[c].session
                    == Some(state.sessions@[i as int].id),
            None => true,
        },
{
    match find_client(clients, who) {
        Some(ci) => match clients[ci].session {
            Some(sid) => find_session(&state.sessions, sid),
            None => None,
        },
        None => None,
    }
}

/// How many clients are attached to the session.
fn count_attached(clients: &Vec<ClientReg>, sid: crate::SessionId) -> (r: usize) {
    let n = clients.len();
    let mut count: usize = 0;
    let mut i: usize = 0;
    while i < n
        invariant
            n == clients@.len(),
            i <= n,
            count <= i,
        decreases n - i,
    {
        match clients[i].session {
            Some(s) => {
                if s == sid {
                    count += 1;
                }
            },
            None => {},
        }
        i += 1;
    }
    count
}

/// Detach every client attached to the session.
fn detach_clients_of(clients: &mut Vec<ClientReg>, sid: crate::SessionId)
    ensures
        final(clients)@.len() == old(clients)@.len(),
{
    let n = clients.len();
    let mut i: usize = 0;
    while i < n
        invariant
            n == clients@.len(),
            i <= n,
        decreases n - i,
    {
        let detach = match clients[i].session {
            Some(s) => s == sid,
            None => false,
        };
        if detach {
            let c = &mut clients[i];
            c.session = None;
        }
        i += 1;
    }
}

/// The position of a pane id in the window's pane list, if present.
fn find_pane_in(w: &crate::window::Window, id: crate::PaneId) -> (r: Option<usize>)
    ensures
        match r {
            Some(i) => i < w.panes@.len() && w.panes@[i as int].id == id,
            None => true,
        },
{
    let n = w.panes.len();
    let mut i: usize = 0;
    while i < n
        invariant
            n == w.panes@.len(),
            i <= n,
        decreases n - i,
    {
        if w.panes[i].id == id {
            return Some(i);
        }
        i += 1;
    }
    None
}

/// Make the pane whose rectangle holds `(col, row)` active, recording the
/// previous one.
fn select_pane_at(w: &mut crate::window::Window, col: u16, row: u16)
    requires
        old(w).inv(),
    ensures
        final(w).inv(),
{
    let geos = w.pane_geometries();
    let n = geos.len();
    let mut i: usize = 0;
    while i < n
        invariant
            w.inv(),
            *w == *old(w),
            n == geos@.len(),
            i <= n,
        decreases n - i,
    {
        let rect = geos[i].1;
        let right = rect.x as u32 + rect.width as u32;
        let bottom = rect.y as u32 + rect.height as u32;
        if col >= rect.x && (col as u32) < right && row >= rect.y && (row as u32) < bottom {
            let target = geos[i].0;
            match find_pane_in(w, target) {
                Some(pi) => {
                    if !(target == w.active_pane) {
                        w.last_active_pane = Some(w.active_pane);
                        w.active_pane = target;
                        proof {
                            assert(crate::window::pane_list_ids(w.panes@)[pi as int] == target);
                            assert(crate::layout::pane_ids_spec(w.layout).contains(target));
                        }
                    }
                },
                None => {},
            }
            return ;
        }
        i += 1;
    }
}

/// The UTF-8 bytes of a string.
fn string_to_utf8(s: &String) -> (r: Vec<u8>) {
    let cs = chars_of_str(s.as_str());
    let mut out: Vec<u8> = Vec::new();
    let n = cs.len();
    let mut i: usize = 0;
    while i < n
        invariant
            n == cs@.len(),
            i <= n,
        decreases n - i,
    {
        crate::keys::push_char_utf8(&mut out, cs[i]);
        i += 1;
    }
    out
}

/// Handle one client message under the server lock: route it to the
/// session, window or pane it names, update the client registry, and
/// produce at most one reply plus the process I/O the caller must carry
/// out. `Ping` answers `Pong`, `Detach` answers `Detached`, a failed
/// attach or kill answers an error, `ListSessions` answers the list, and
/// plain mutations answer nothing (the caller then renders). Every
/// session stays well-formed whatever arrives.
#[verifier::rlimit(100)]
#[verifier::spinoff_prover]
#[verifier::loop_isolation(false)]
pub fn dispatch(
    state: &mut ServerState,
    clients: &mut Vec<ClientReg>,
    who: crate::ClientId,
    msg: ClientMessage,
    now: u64,
) -> (r: (Option<ServerMessage>, Vec<PtyAction>))
    requires
        old(state).inv(),
    ensures
        final(state).inv(),
        msg is Ping ==> (r.0 matches Some(m) && m is Pong) && *final(state) == *old(state)
            && final(clients)@ == old(clients)@,
        msg is Detach ==> (r.0 matches Some(m) && m is Detached) && *final(state) == *old(state),
        msg is NewSession ==> final(state).sessions@.len() == old(state).sessions@.len() + 1 && (
        r.0 matches Some(m) && m is SessionCreated),
        msg is ListSessions ==> (r.0 matches Some(m) && m is SessionList) && *final(state) == *old(
            state,
        ),
        msg is Resize || msg is SelectWindow || msg is NextWindow || msg is PrevWindow
            || msg is RenameWindow || msg is RenameSession || msg is ZoomPane || msg is SelectPane
            || msg is ResizePane || msg is EnterCopyMode || msg is CopyModeInput || msg is Paste
            || msg is MouseEvent ==> r.0 is None,
        msg is Input ==> r.0 is None && *final(state) == *old(state) && final(clients)@ == old(
            clients,
        )@ && r.1@.len() <= 1,
        msg matches ClientMessage::Input(data) ==> (r.1@.len() == 1 ==> (
        r.1@[0] matches PtyAction::Write { pane, bytes } && (bytes@ == data@ && exists|i: int|
            0 <= i < old(state).sessions@.len() && pane == (#[trigger] old(
                state,
            ).sessions@[i]).windows@[old(state).sessions@[i].active_window_idx as int].active_pane
                && exists|c: int|
                0 <= c < old(clients)@.len() && (#[trigger] old(clients)@[c]).id == who && old(
                    clients,
                )@[c].session == Some(old(state).sessions@[i].id)))),
        msg matches ClientMessage::Resize { cols, rows } ==> r.0 is None && r.1@.len() == 0
            && final(state).sessions@.len() == old(state).sessions@.len(),
        msg is NextWindow ==> *final(state) == *old(state) || exists|i: int|
            0 <= i < old(state).sessions@.len() && final(state).sessions@.len() == old(
                state,
            ).sessions@.len() && ({
                let s0 = old(state).sessions@[i];
                let s1 = (#[trigger] final(state).sessions@[i]);
                s1.windows@ == s0.windows@ && s1.active_window_idx as int == (
                if s0.active_window_idx + 1 < s0.windows@.len() {
                    s0.active_window_idx + 1
                } else {
                    0int
                })
            }),
        msg is PrevWindow ==> *final(state) == *old(state) || exists|i: int|
            0 <= i < old(state).sessions@.len() && final(state).sessions@.len() == old(
                state,
            ).sessions@.len() && ({
                let s0 = old(state).sessions@[i];
                let s1 = (#[trigger] final(state).sessions@[i]);
                s1.windows@ == s0.windows@ && s1.active_window_idx as int == (
                if s0.active_window_idx == 0 {
                    s0.windows@.len() - 1
                } else {
                    s0.active_window_idx - 1
                })
            }),
        msg matches ClientMessage::RenameSession(nm) ==> *final(state) == *old(state)
            || exists|i: int|
            0 <= i < old(state).sessions@.len() && final(state).sessions@.len() == old(
                state,
            ).sessions@.len() && (#[trigger] final(state).sessions@[i]).name == nm,
        msg is SplitPane ==> (r.1@.len() == 1 ==> (r.1@[0] is Spawn && exists|i: int|
            0 <= i < old(state).sessions@.len() && final(state).sessions@.len() == old(
                state,
            ).sessions@.len() && (#[trigger] final(state).sessions@[i]).windows@[old(
                state,
            ).sessions@[i].active_window_idx as int].panes@.len() == old(
                state,
            ).sessions@[i].windows@[old(state).sessions@[i].active_window_idx as int].panes@.len()
                + 1)),
{
    let no_actions: Vec<PtyAction> = Vec::new();
    match msg {
        ClientMessage::Ping => (Some(ServerMessage::Pong), no_actions),
        ClientMessage::Detach => (Some(ServerMessage::Detached), no_actions),
        ClientMessage::NewSession { name, command, cols, rows } => {
            let shell = match command {
                Some(c) => c,
                None => state.options.default_shell.clone(),
            };
            let session_name = match name {
                Some(n) => n,
                None => copy_str("session"),
            };
            let session = Session::new(session_name.as_str(), shell.as_str(), cols, rows, now);
            let sid = session.id;
            let pane = session.windows[0].panes[0].id;
            state.sessions.push(session);
            proof {
                assert forall|q: int| 0 <= q < state.sessions@.len() implies (
                #[trigger] state.sessions@[q]).inv() by {
                    if q < state.sessions@.len() - 1 {
                        assert(state.sessions@[q] == old(state).sessions@[q]);
                    }
                }
            }
            match find_client(clients, who) {
                Some(ci) => {
                    let c = &mut clients[ci];
                    c.session = Some(sid);
                    c.cols = cols;
                    c.rows = rows;
                },
                None => {},
            }
            let mut actions: Vec<PtyAction> = Vec::new();
            actions.push(PtyAction::Spawn { pane, command: shell });
            (Some(ServerMessage::SessionCreated { session_id: sid, name: session_name }), actions)
        },
        ClientMessage::Attach { session, cols, rows } => {
            let found: Option<usize> = match &session {
                crate::protocol::SessionTarget::Id(id) => find_session(&state.sessions, *id),
                crate::protocol::SessionTarget::Name(nm) => {
                    find_session_by_name(&state.sessions, nm.as_str())
                },
            };
            match found {
                Some(si) => {
                    let ghost pre = state.sessions@;
                    let s = &mut state.sessions[si];
                    s.resize(cols, rows);
                    let sid = s.id;
                    let nm = s.name.clone();
                    proof {
                        assert forall|q: int| 0 <= q < state.sessions@.len() implies (
                        #[trigger] state.sessions@[q]).inv() by {
                            if q != si {
                                assert(state.sessions@[q] == pre[q]);
                            }
                        }
                    }
                    match find_client(clients, who) {
                        Some(ci) => {
                            let c = &mut clients[ci];
                            c.session = Some(sid);
                            c.cols = cols;
                            c.rows = rows;
                        },
                        None => {},
                    }
                    (Some(ServerMessage::Attached { session_id: sid, name: nm }), no_actions)
                },
                None => {
                    (Some(ServerMessage::Error(copy_str("session not found"))), no_actions)
                },
            }
        },
        ClientMessage::Input(data) => {
            let mut actions: Vec<PtyAction> = Vec::new();
            match client_session_idx(state, clients, who) {
                Some(si) => {
                    let pane = state.sessions[si].active_pane_id();
                    actions.push(PtyAction::Write { pane, bytes: data });
                },
                None => {},
            }
            (None, actions)
        },
        ClientMessage::Resize { cols, rows } => {
            match find_client(clients, who) {
                Some(ci) => {
                    let c = &mut clients[ci];
                    c.cols = cols;
                    c.rows = rows;
                },
                None => {},
            }
            match client_session_idx(state, clients, who) {
                Some(si) => {
                    let ghost pre = state.sessions@;
                    let s = &mut state.sessions[si];
                    s.resize(cols, rows);
                    proof {
                        assert forall|q: int| 0 <= q < state.sessions@.len() implies (
                        #[trigger] state.sessions@[q]).inv() by {
                            if q != si {
                                assert(state.sessions@[q] == pre[q]);
                            }
                        }
                    }
                },
                None => {},
            }
            (None, no_actions)
        },
        ClientMessage::SplitPane { horizontal } => {
            let shell = state.options.default_shell.clone();
            match client_session_idx(state, clients, who) {
                Some(si) => {
                    let ghost pre = state.sessions@;
                    let s = &mut state.sessions[si];
                    let w = s.active_window_mut();
                    let res = w.split_pane(shell.as_str(), horizontal);
                    proof {
                        assert forall|q: int| 0 <= q < state.sessions@.len() implies (
                        #[trigger] state.sessions@[q]).inv() by {
                            if q != si {
                                assert(state.sessions@[q] == pre[q]);
                            }
                        }
                    }
                    match res {
                        Ok(pane) => {
                            let mut actions: Vec<PtyAction> = Vec::new();
                            actions.push(PtyAction::Spawn { pane, command: shell });
                            (None, actions)
                        },
                        Err(_) => {
                            (Some(ServerMessage::Error(copy_str("split failed"))), no_actions)
                        },
                    }
                },
                None => (None, no_actions),
            }
        },
        ClientMessage::SelectPane(d) => {
            with_client_session(state, clients, who, SessionOp::SelectPane(d));
            (None, no_actions)
        },
        ClientMessage::ResizePane { direction, amount } => {
            with_client_session(state, clients, who, SessionOp::ResizePane(direction, amount));
            (None, no_actions)
        },
        ClientMessage::ZoomPane => {
            with_client_session(state, clients, who, SessionOp::ToggleZoom);
            (None, no_actions)
        },
        ClientMessage::NewWindow { name, command } => {
            let shell = match command {
                Some(c) => c,
                None => state.options.default_shell.clone(),
            };
            let mut actions: Vec<PtyAction> = Vec::new();
            match client_session_idx(state, clients, who) {
                Some(si) => {
                    let ghost pre = state.sessions@;
                    let s = &mut state.sessions[si];
                    if s.next_window_index < usize::MAX {
                        let cols = s.active_window().area_width();
                        let rows = s.active_window().area_height();
                        let name_ref: Option<&str> = match &name {
                            Some(n) => Some(n.as_str()),
                            None => None,
                        };
                        let res = s.new_window(name_ref, shell.as_str(), cols, rows);
                        match res {
                            Ok(_) => {
                                let pane = s.active_window().active_pane;
                                actions.push(PtyAction::Spawn { pane, command: shell });
                            },
                            Err(_) => {},
                        }
                    }
                    proof {
                        assert forall|q: int| 0 <= q < state.sessions@.len() implies (
                        #[trigger] state.sessions@[q]).inv() by {
                            if q != si {
                                assert(state.sessions@[q] == pre[q]);
                            }
                        }
                    }
                },
                None => {},
            }
            (None, actions)
        },
        ClientMessage::ClosePane => {
            match client_session_idx(state, clients, who) {
                Some(si) => {
                    let ghost pre = state.sessions@;
                    let mut emptied = false;
                    {
                        let s = &mut state.sessions[si];
                        if s.active_window().pane_count() <= 1 {
                            let win = s.active_window().id;
                            if s.close_window(win) {
                                emptied = true;
                            }
                        } else {
                            let pane = s.active_window().active_pane;
                            let _ = s.active_window_mut().close_pane(pane);
                        }
                    }
                    if emptied {
                        state.sessions.remove(si);
                        proof {
                            assert forall|q: int| 0 <= q < state.sessions@.len() implies (
                            #[trigger] state.sessions@[q]).inv() by {
                                if q < si {
                                    assert(state.sessions@[q] == pre[q]);
                                } else {
                                    assert(state.sessions@[q] == pre[q + 1]);
                                }
                            }
                        }
                        return (Some(ServerMessage::Detached), no_actions);
                    }
                    proof {
                        assert forall|q: int| 0 <= q < state.sessions@.len() implies (
                        #[trigger] state.sessions@[q]).inv() by {
                            if q != si {
                                assert(state.sessions@[q] == pre[q]);
                            }
                        }
                    }
                    (None, no_actions)
                },
                None => (None, no_actions),
            }
        },
        ClientMessage::SelectWindow(i) => {
            with_client_session(state, clients, who, SessionOp::SelectWindow(i));
            (None, no_actions)
        },
        ClientMessage::NextWindow => {
            with_client_session(state, clients, who, SessionOp::NextWindow);
            (None, no_actions)
        },
        ClientMessage::PrevWindow => {
            with_client_session(state, clients, who, SessionOp::PrevWindow);
            (None, no_actions)
        },
        ClientMessage::RenameWindow(nm) => {
            with_client_session(state, clients, who, SessionOp::RenameWindow(nm));
            (None, no_actions)
        },
        ClientMessage::RenameSession(nm) => {
            with_client_session(state, clients, who, SessionOp::RenameSession(nm));
            (None, no_actions)
        },
        ClientMessage::ListSessions => {
            let mut infos: Vec<crate::protocol::SessionInfo> = Vec::new();
            let n = state.sessions.len();
            let mut i: usize = 0;
            while i < n
                invariant
                    old(state).inv(),
                    *state == *old(state),
                    n == state.sessions@.len(),
                    i <= n,
                decreases n - i,
            {
                let s = &state.sessions[i];
                let attached = count_attached(clients, s.id);
                infos.push(
                    crate::protocol::SessionInfo {
                        id: s.id,
                        name: s.name.clone(),
                        window_count: s.windows.len(),
                        pane_count: s.pane_count(),
                        created_at: s.created_at,
                        attached_clients: attached,
                    },
                );
                i += 1;
            }
            (Some(ServerMessage::SessionList(infos)), no_actions)
        },
        ClientMessage::KillSession(target) => {
            let found: Option<usize> = match &target {
                crate::protocol::SessionTarget::Id(id) => find_session(&state.sessions, *id),
                crate::protocol::SessionTarget::Name(nm) => {
                    find_session_by_name(&state.sessions, nm.as_str())
                },
            };
            match found {
                Some(si) => {
                    let ghost pre = state.sessions@;
                    let sid = state.sessions[si].id;
                    state.sessions.remove(si);
                    proof {
                        assert forall|q: int| 0 <= q < state.sessions@.len() implies (
                        #[trigger] state.sessions@[q]).inv() by {
                            if q < si {
                                assert(state.sessions@[q] == pre[q]);
                            } else {
                                assert(state.sessions@[q] == pre[q + 1]);
                            }
                        }
                    }
                    detach_clients_of(clients, sid);
                    (Some(ServerMessage::Notification(copy_str("session killed"))), no_actions)
                },
                None => {
                    (Some(ServerMessage::Error(copy_str("session not found"))), no_actions)
                },
            }
        },
        ClientMessage::EnterCopyMode => {
            match client_session_idx(state, clients, who) {
                Some(si) => {
                    let s = &state.sessions[si];
                    let w = s.active_window();
                    let mut cx: u16 = 0;
                    let mut cy: u16 = 0;
                    match find_pane_in(w, w.active_pane) {
                        Some(pi) => {
                            let pos = w.panes[pi].terminal.cursor_pos();
                            cx = pos.0;
                            cy = pos.1;
                        },
                        None => {},
                    }
                    match find_client(clients, who) {
                        Some(ci) => {
                            let c = &mut clients[ci];
                            c.copy_mode = Some(crate::copymode::CopyMode::new(cx, cy));
                        },
                        None => {},
                    }
                },
                None => {},
            }
            (None, no_actions)
        },
        ClientMessage::CopyModeInput(action) => {
            match client_session_idx(state, clients, who) {
                Some(si) => {
                    let mut copied: Option<String> = None;
                    let mut drop_mode = false;
                    match find_client(clients, who) {
                        Some(ci) => {
                            let s = &state.sessions[si];
                            let w = s.active_window();
                            match find_pane_in(w, w.active_pane) {
                                Some(pi) => {
                                    let term = &w.panes[pi].terminal;
                                    let c = &mut clients[ci];
                                    match &mut c.copy_mode {
                                        Some(cm) => {
                                            if cm.cursor_x < term.state.grid.cols && cm.cursor_y
                                                < term.state.grid.rows {
                                                copied = cm.handle_action(&action, term);
                                            }
                                            if !cm.active {
                                                drop_mode = true;
                                            }
                                        },
                                        None => {},
                                    }
                                    if drop_mode {
                                        let c2 = &mut clients[ci];
                                        c2.copy_mode = None;
                                    }
                                },
                                None => {},
                            }
                        },
                        None => {},
                    }
                    match copied {
                        Some(text) => {
                            state.paste_buffer.push(text);
                        },
                        None => {},
                    }
                },
                None => {},
            }
            (None, no_actions)
        },
        ClientMessage::Paste => {
            let mut actions: Vec<PtyAction> = Vec::new();
            match client_session_idx(state, clients, who) {
                Some(si) => {
                    let mut bytes: Option<Vec<u8>> = None;
                    match state.paste_buffer.top() {
                        Some(text) => {
                            bytes = Some(string_to_utf8(text));
                        },
                        None => {},
                    }
                    match bytes {
                        Some(b) => {
                            let pane = state.sessions[si].active_pane_id();
                            actions.push(PtyAction::Write { pane, bytes: b });
                        },
                        None => {},
                    }
                },
                None => {},
            }
            (None, actions)
        },
        ClientMessage::Command(cmd) => {
            match execute_command(state, cmd.as_str()) {
                Ok(o) => {
                    match o {
                        Some(text) => (Some(ServerMessage::Notification(text)), no_actions),
                        None => (None, no_actions),
                    }
                },
                Err(_) => (Some(ServerMessage::Error(copy_str("command failed"))), no_actions),
            }
        },
        ClientMessage::MouseEvent { kind, col, row } => {
            if !state.options.mouse {
                return (None, no_actions);
            }
            match kind {
                crate::protocol::MouseEventKind::Click => {
                    match client_session_idx(state, clients, who) {
                        Some(si) => {
                            let ghost pre = state.sessions@;
                            let s = &mut state.sessions[si];
                            let w = s.active_window_mut();
                            select_pane_at(w, col, row);
                            proof {
                                assert forall|q: int| 0 <= q < state.sessions@.len() implies (
                                #[trigger] state.sessions@[q]).inv() by {
                                    if q != si {
                                        assert(state.sessions@[q] == pre[q]);
                                    }
                                }
                            }
                        },
                        None => {},
                    }
                },
                crate::protocol::MouseEventKind::ScrollUp => {
                    match find_client(clients, who) {
                        Some(ci) => {
                            let c = &mut clients[ci];
                            match &mut c.copy_mode {
                                Some(cm) => {
                                    if cm.scroll_offset <= usize::MAX - 3 {
                                        cm.scroll_offset = cm.scroll_offset + 3;
                                    }
                                },
                                None => {
                                    c.copy_mode = Some(crate::copymode::CopyMode::new(0, 0));
                                },
                            }
                        },
                        None => {},
                    }
                },
                crate::protocol::MouseEventKind::ScrollDown => {
                    match find_client(clients, who) {
                        Some(ci) => {
                            let c = &mut clients[ci];
                            match &mut c.copy_mode {
                                Some(cm) => {
                                    if cm.scroll_offset >= 3 {
                                        cm.scroll_offset = cm.scroll_offset - 3;
                                    } else {
                                        cm.scroll_offset = 0;
                                    }
                                },
                                None => {},
                            }
                        },
                        None => {},
                    }
                },
            }
            (None, no_actions)
        },
    }
}

} // verus!
