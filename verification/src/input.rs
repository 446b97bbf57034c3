//! The client-side key interpreter: a prefix-key state machine that turns
//! keystrokes into raw bytes, commands, or a detach request.

use vstd::prelude::*;

use crate::chars::push_char;
use crate::keys::{binding_index, key_bytes_spec, key_to_bytes, Key, KeyBinding, KeyTable, Modifiers};

verus! {

/// What one key event turns into.
#[derive(Debug)]
pub enum KeyAction {
    /// Send raw bytes to the server as pane input.
    SendBytes(Vec<u8>),
    /// Execute a command string.
    Command(String),
    /// Detach from the session.
    Detach,
    /// Nothing to do.
    Idle,
}

/// The interpreter's mode.
#[derive(Debug, Clone, Copy, PartialEq, Eq, Structural)]
pub enum InputState {
    Normal,
    PrefixReceived,
}

/// Prefix-key state machine: `Normal` until the prefix key arrives, then
/// one key is interpreted through the binding table; a command prompt
/// collects a command line character by character.
pub struct InputHandler {
    pub state: InputState,
    pub key_table: KeyTable,
    pub command_buffer: String,
    pub in_command_prompt: bool,
}

impl InputHandler {
    /// A fresh interpreter: normal state, empty prompt buffer, and the
    /// default tmux-compatible key table, every binding of which is
    /// restated here so callers can reason about dispatch.
    pub fn new() -> (r: InputHandler)
        ensures
            r.key_table.wf(),
            r.state == InputState::Normal,
            !r.in_command_prompt,
            r.command_buffer@.len() == 0,
            r.key_table.prefix == (KeyBinding {
                key: Key::Char('b'),
                modifiers: Modifiers::spec_ctrl(),
            }),
            r.key_table.bindings@.len() == 42,
            binding_index(r.key_table.bindings@, (KeyBinding { key: Key::Char('%'), modifiers: Modifiers::spec_default() })) == Some(0int),
            r.key_table.bindings@[0].1@ == "split-window -h"@,
            binding_index(r.key_table.bindings@, (KeyBinding { key: Key::Char('"'), modifiers: Modifiers::spec_default() })) == Some(1int),
            r.key_table.bindings@[1].1@ == "split-window -v"@,
            binding_index(r.key_table.bindings@, (KeyBinding { key: Key::Char('c'), modifiers: Modifiers::spec_default() })) == Some(2int),
            r.key_table.bindings@[2].1@ == "new-window"@,
            binding_index(r.key_table.bindings@, (KeyBinding { key: Key::Char('d'), modifiers: Modifiers::spec_default() })) == Some(3int),
            r.key_table.bindings@[3].1@ == "detach-client"@,
            binding_index(r.key_table.bindings@, (KeyBinding { key: Key::Char('n'), modifiers: Modifiers::spec_default() })) == Some(4int),
            r.key_table.bindings@[4].1@ == "next-window"@,
            binding_index(r.key_table.bindings@, (KeyBinding { key: Key::Char('p'), modifiers: Modifiers::spec_default() })) == Some(5int),
            r.key_table.bindings@[5].1@ == "previous-window"@,
            binding_index(r.key_table.bindings@, (KeyBinding { key: Key::Char('l'), modifiers: Modifiers::spec_default() })) == Some(6int),
            r.key_table.bindings@[6].1@ == "last-window"@,
            binding_index(r.key_table.bindings@, (KeyBinding { key: Key::Char('w'), modifiers: Modifiers::spec_default() })) == Some(7int),
            r.key_table.bindings@[7].1@ == "choose-window"@,
            binding_index(r.key_table.bindings@, (KeyBinding { key: Key::Char(','), modifiers: Modifiers::spec_default() })) == Some(8int),
            r.key_table.bindings@[8].1@ == "rename-window"@,
            binding_index(r.key_table.bindings@, (KeyBinding { key: Key::Char('$'), modifiers: Modifiers::spec_default() })) == Some(9int),
            r.key_table.bindings@[9].1@ == "rename-session"@,
            binding_index(r.key_table.bindings@, (KeyBinding { key: Key::Char('&'), modifiers: Modifiers::spec_default() })) == Some(10int),
            r.key_table.bindings@[10].1@ == "kill-window"@,
            binding_index(r.key_table.bindings@, (KeyBinding { key: Key::Char('x'), modifiers: Modifiers::spec_default() })) == Some(11int),
            r.key_table.bindings@[11].1@ == "kill-pane"@,
            binding_index(r.key_table.bindings@, (KeyBinding { key: Key::Char('0'), modifiers: Modifiers::spec_default() })) == Some(12int),
            r.key_table.bindings@[12].1@ == "select-window -t 0"@,
            binding_index(r.key_table.bindings@, (KeyBinding { key: Key::Char('1'), modifiers: Modifiers::spec_default() })) == Some(13int),
            r.key_table.bindings@[13].1@ == "select-window -t 1"@,
            binding_index(r.key_table.bindings@, (KeyBinding { key: Key::Char('2'), modifiers: Modifiers::spec_default() })) == Some(14int),
            r.key_table.bindings@[14].1@ == "select-window -t 2"@,
            binding_index(r.key_table.bindings@, (KeyBinding { key: Key::Char('3'), modifiers: Modifiers::spec_default() })) == Some(15int),
            r.key_table.bindings@[15].1@ == "select-window -t 3"@,
            binding_index(r.key_table.bindings@, (KeyBinding { key: Key::Char('4'), modifiers: Modifiers::spec_default() })) == Some(16int),
            r.key_table.bindings@[16].1@ == "select-window -t 4"@,
            binding_index(r.key_table.bindings@, (KeyBinding { key: Key::Char('5'), modifiers: Modifiers::spec_default() })) == Some(17int),
            r.key_table.bindings@[17].1@ == "select-window -t 5"@,
            binding_index(r.key_table.bindings@, (KeyBinding { key: Key::Char('6'), modifiers: Modifiers::spec_default() })) == Some(18int),
            r.key_table.bindings@[18].1@ == "select-window -t 6"@,
            binding_index(r.key_table.bindings@, (KeyBinding { key: Key::Char('7'), modifiers: Modifiers::spec_default() })) == Some(19int),
            r.key_table.bindings@[19].1@ == "select-window -t 7"@,
            binding_index(r.key_table.bindings@, (KeyBinding { key: Key::Char('8'), modifiers: Modifiers::spec_default() })) == Some(20int),
            r.key_table.bindings@[20].1@ == "select-window -t 8"@,
            binding_index(r.key_table.bindings@, (KeyBinding { key: Key::Char('9'), modifiers: Modifiers::spec_default() })) == Some(21int),
            r.key_table.bindings@[21].1@ == "select-window -t 9"@,
            binding_index(r.key_table.bindings@, (KeyBinding { key: Key::Up, modifiers: Modifiers::spec_default() })) == Some(22int),
            r.key_table.bindings@[22].1@ == "select-pane -U"@,
            binding_index(r.key_table.bindings@, (KeyBinding { key: Key::Down, modifiers: Modifiers::spec_default() })) == Some(23int),
            r.key_table.bindings@[23].1@ == "select-pane -D"@,
            binding_index(r.key_table.bindings@, (KeyBinding { key: Key::Left, modifiers: Modifiers::spec_default() })) == Some(24int),
            r.key_table.bindings@[24].1@ == "select-pane -L"@,
            binding_index(r.key_table.bindings@, (KeyBinding { key: Key::Right, modifiers: Modifiers::spec_default() })) == Some(25int),
            r.key_table.bindings@[25].1@ == "select-pane -R"@,
            binding_index(r.key_table.bindings@, (KeyBinding { key: Key::Up, modifiers: Modifiers::spec_ctrl() })) == Some(26int),
            r.key_table.bindings@[26].1@ == "resize-pane -U 1"@,
            binding_index(r.key_table.bindings@, (KeyBinding { key: Key::Down, modifiers: Modifiers::spec_ctrl() })) == Some(27int),
            r.key_table.bindings@[27].1@ == "resize-pane -D 1"@,
            binding_index(r.key_table.bindings@, (KeyBinding { key: Key::Left, modifiers: Modifiers::spec_ctrl() })) == Some(28int),
            r.key_table.bindings@[28].1@ == "resize-pane -L 1"@,
            binding_index(r.key_table.bindings@, (KeyBinding { key: Key::Right, modifiers: Modifiers::spec_ctrl() })) == Some(29int),
            r.key_table.bindings@[29].1@ == "resize-pane -R 1"@,
            binding_index(r.key_table.bindings@, (KeyBinding { key: Key::Char('z'), modifiers: Modifiers::spec_default() })) == Some(30int),
            r.key_table.bindings@[30].1@ == "resize-pane -Z"@,
            binding_index(r.key_table.bindings@, (KeyBinding { key: Key::Char('['), modifiers: Modifiers::spec_default() })) == Some(31int),
            r.key_table.bindings@[31].1@ == "copy-mode"@,
            binding_index(r.key_table.bindings@, (KeyBinding { key: Key::Char(']'), modifiers: Modifiers::spec_default() })) == Some(32int),
            r.key_table.bindings@[32].1@ == "paste-buffer"@,
            binding_index(r.key_table.bindings@, (KeyBinding { key: Key::PageUp, modifiers: Modifiers::spec_default() })) == Some(33int),
            r.key_table.bindings@[33].1@ == "copy-mode -u"@,
            binding_index(r.key_table.bindings@, (KeyBinding { key: Key::Char(':'), modifiers: Modifiers::spec_default() })) == Some(34int),
            r.key_table.bindings@[34].1@ == "command-prompt"@,
            binding_index(r.key_table.bindings@, (KeyBinding { key: Key::Char('t'), modifiers: Modifiers::spec_default() })) == Some(35int),
            r.key_table.bindings@[35].1@ == "clock-mode"@,
            binding_index(r.key_table.bindings@, (KeyBinding { key: Key::Char('?'), modifiers: Modifiers::spec_default() })) == Some(36int),
            r.key_table.bindings@[36].1@ == "list-keys"@,
            binding_index(r.key_table.bindings@, (KeyBinding { key: Key::Char('o'), modifiers: Modifiers::spec_default() })) == Some(37int),
            r.key_table.bindings@[37].1@ == "select-pane -t :.+"@,
            binding_index(r.key_table.bindings@, (KeyBinding { key: Key::Char(';'), modifiers: Modifiers::spec_default() })) == Some(38int),
            r.key_table.bindings@[38].1@ == "last-pane"@,
            binding_index(r.key_table.bindings@, (KeyBinding { key: Key::Char('{'), modifiers: Modifiers::spec_default() })) == Some(39int),
            r.key_table.bindings@[39].1@ == "swap-pane -U"@,
            binding_index(r.key_table.bindings@, (KeyBinding { key: Key::Char('}'), modifiers: Modifiers::spec_default() })) == Some(40int),
            r.key_table.bindings@[40].1@ == "swap-pane -D"@,
            binding_index(r.key_table.bindings@, (KeyBinding { key: Key::Space, modifiers: Modifiers::spec_default() })) == Some(41int),
            r.key_table.bindings@[41].1@ == "next-layout"@,
    {
        InputHandler {
            state: InputState::Normal,
            key_table: KeyTable::default_tmux_bindings(),
            command_buffer: String::new(),
            in_command_prompt: false,
        }
    }

    /// Interpret one keystroke.
    ///
    /// In `Normal` the prefix key arms the prefix state and emits nothing;
    /// any other key becomes its raw bytes. The key after the prefix is
    /// looked up in the binding table: `detach-client` detaches,
    /// `command-prompt` opens the prompt, any other hit emits its command,
    /// and a miss falls back to the key's raw bytes. At the prompt,
    /// printable characters collect into the buffer, Enter emits it as a
    /// command, and Escape discards it.
    pub fn handle_key(&mut self, key: Key, modifiers: Modifiers) -> (r: KeyAction)
        requires
            old(self).key_table.wf(),
        ensures
            final(self).key_table.wf(),
            final(self).key_table == old(self).key_table,
            !old(self).in_command_prompt && old(self).state == InputState::Normal
                ==> !final(self).in_command_prompt && final(self).command_buffer == old(
                self,
            ).command_buffer,
            !old(self).in_command_prompt && old(self).state == InputState::PrefixReceived && !(
            match binding_index(old(self).key_table.bindings@, KeyBinding { key, modifiers }) {
                Some(i) => old(self).key_table.bindings@[i].1@ == "command-prompt"@,
                None => false,
            }) ==> !final(self).in_command_prompt && final(self).command_buffer == old(
                self,
            ).command_buffer,
            !old(self).in_command_prompt && old(self).state == InputState::Normal && (KeyBinding {
                key,
                modifiers,
            }) == old(self).key_table.prefix ==> final(self).state == InputState::PrefixReceived
                && r is Idle,
            !old(self).in_command_prompt && old(self).state == InputState::Normal && (KeyBinding {
                key,
                modifiers,
            }) != old(self).key_table.prefix ==> final(self).state == InputState::Normal && (
            match key_bytes_spec(key, modifiers) {
                Some(bs) => r matches KeyAction::SendBytes(v) && v@ == bs,
                None => r is Idle,
            }),
            !old(self).in_command_prompt && old(self).state == InputState::PrefixReceived
                ==> final(self).state == InputState::Normal,
            !old(self).in_command_prompt && old(self).state == InputState::PrefixReceived && (
            match binding_index(old(self).key_table.bindings@, KeyBinding { key, modifiers }) {
                Some(i) => old(self).key_table.bindings@[i].1@ != "detach-client"@ && old(
                    self,
                ).key_table.bindings@[i].1@ != "command-prompt"@,
                None => false,
            }) ==> (r matches KeyAction::Command(c) && c@ == old(self).key_table.bindings@[
                binding_index(old(self).key_table.bindings@, KeyBinding { key, modifiers })->0
            ].1@),
            !old(self).in_command_prompt && old(self).state == InputState::PrefixReceived && (
            match binding_index(old(self).key_table.bindings@, KeyBinding { key, modifiers }) {
                Some(i) => old(self).key_table.bindings@[i].1@ == "detach-client"@,
                None => false,
            }) ==> r is Detach,
            !old(self).in_command_prompt && old(self).state == InputState::PrefixReceived && (
            match binding_index(old(self).key_table.bindings@, KeyBinding { key, modifiers }) {
                Some(i) => old(self).key_table.bindings@[i].1@ == "command-prompt"@,
                None => false,
            }) ==> final(self).in_command_prompt && final(self).command_buffer@.len() == 0
                && r is SendBytes,
            !old(self).in_command_prompt && old(self).state == InputState::PrefixReceived
                && binding_index(old(self).key_table.bindings@, KeyBinding { key, modifiers })
                is None ==> (match key_bytes_spec(key, modifiers) {
                Some(bs) => r matches KeyAction::SendBytes(v) && v@ == bs,
                None => r is Idle,
            }),
            old(self).in_command_prompt && key == Key::Enter ==> !final(self).in_command_prompt
                && final(self).command_buffer@.len() == 0 && (old(self).command_buffer@.len() > 0
                ==> (r matches KeyAction::Command(c) && c@ == old(self).command_buffer@)),
            old(self).in_command_prompt && key == Key::Escape ==> !final(self).in_command_prompt
                && final(self).command_buffer@.len() == 0 && r is Idle,
    {
        if self.in_command_prompt {
            return self.handle_command_prompt_key(key, modifiers);
        }
        match self.state {
            InputState::Normal => {
                let b = KeyBinding { key, modifiers };
                if b == self.key_table.prefix {
                    self.state = InputState::PrefixReceived;
                    return KeyAction::Idle;
                }
                match key_to_bytes(key, modifiers) {
                    Some(bytes) => KeyAction::SendBytes(bytes),
                    None => KeyAction::Idle,
                }
            },
            InputState::PrefixReceived => {
                self.state = InputState::Normal;
                let b = KeyBinding { key, modifiers };
                let command: Option<String> = match self.key_table.lookup(&b) {
                    Some(cmd) => Some(clone_string(cmd)),
                    None => None,
                };
                proof {
                    reveal_strlit("detach-client");
                    reveal_strlit("command-prompt");
                    assert("detach-client"@.len() == 13);
                    assert("command-prompt"@.len() == 14);
                    assert("detach-client"@ != "command-prompt"@);
                }
                match command {
                    Some(cmd) => {
                        if string_is(&cmd, "detach-client") {
                            return KeyAction::Detach;
                        }
                        if string_is(&cmd, "command-prompt") {
                            self.in_command_prompt = true;
                            self.command_buffer = String::new();
                            let mut prompt: Vec<u8> = Vec::new();
                            push_prompt_redraw(&mut prompt, &self.command_buffer);
                            return KeyAction::SendBytes(prompt);
                        }
                        KeyAction::Command(cmd)
                    },
                    None => {
                        match key_to_bytes(key, modifiers) {
                            Some(bytes) => KeyAction::SendBytes(bytes),
                            None => KeyAction::Idle,
                        }
                    },
                }
            },
        }
    }

    /// One keystroke while the command prompt is open.
    fn handle_command_prompt_key(&mut self, key: Key, modifiers: Modifiers) -> (r: KeyAction)
        requires
            old(self).in_command_prompt,
            old(self).key_table.wf(),
        ensures
            final(self).key_table.wf(),
            final(self).key_table == old(self).key_table,
            !old(self).in_command_prompt && old(self).state == InputState::Normal
                ==> !final(self).in_command_prompt && final(self).command_buffer == old(
                self,
            ).command_buffer,
            !old(self).in_command_prompt && old(self).state == InputState::PrefixReceived && !(
            match binding_index(old(self).key_table.bindings@, KeyBinding { key, modifiers }) {
                Some(i) => old(self).key_table.bindings@[i].1@ == "command-prompt"@,
                None => false,
            }) ==> !final(self).in_command_prompt && final(self).command_buffer == old(
                self,
            ).command_buffer,
            key == Key::Enter ==> !final(self).in_command_prompt
                && final(self).command_buffer@.len() == 0 && (old(self).command_buffer@.len() > 0
                ==> (r matches KeyAction::Command(c) && c@ == old(self).command_buffer@)),
            key == Key::Escape ==> !final(self).in_command_prompt
                && final(self).command_buffer@.len() == 0 && r is Idle,
    {
        match key {
            Key::Enter => {
                self.in_command_prompt = false;
                let mut cmd = String::new();
                core::mem::swap(&mut self.command_buffer, &mut cmd);
                if cmd.as_str().unicode_len() == 0 {
                    proof {
                        assert(cmd@.len() == 0);
                    }
                    KeyAction::Idle
                } else {
                    KeyAction::Command(cmd)
                }
            },
            Key::Escape => {
                self.in_command_prompt = false;
                self.command_buffer = String::new();
                KeyAction::Idle
            },
            Key::Backspace => {
                pop_char(&mut self.command_buffer);
                let mut out: Vec<u8> = Vec::new();
                push_prompt_redraw(&mut out, &self.command_buffer);
                KeyAction::SendBytes(out)
            },
            Key::Char(c) => {
                push_char(&mut self.command_buffer, c);
                let mut out: Vec<u8> = Vec::new();
                push_prompt_redraw(&mut out, &self.command_buffer);
                KeyAction::SendBytes(out)
            },
            _ => KeyAction::Idle,
        }
    }
}

/// Clone a string by value.
fn clone_string(s: &String) -> (r: String)
    ensures
        r@ == s@,
{
    s.clone()
}

/// Whether a string holds exactly the given text.
fn string_is(s: &String, t: &str) -> (r: bool)
    ensures
        r == (s@ == t@),
{
    let n = s.as_str().unicode_len();
    let m = t.unicode_len();
    if n != m {
        return false;
    }
    let mut i: usize = 0;
    while i < n
        invariant
            n == s@.len(),
            n == t@.len(),
            i <= n,
            forall|q: int| 0 <= q < i ==> s@[q] == t@[q],
        decreases n - i,
    {
        if s.as_str().get_char(i) != t.get_char(i) {
            return false;
        }
        i += 1;
    }
    proof {
        assert(s@ =~= t@);
    }
    true
}

/// Drop the last character of a string, if any.
fn pop_char(s: &mut String)
    ensures
        old(s)@.len() == 0 ==> final(s)@ == old(s)@,
        old(s)@.len() > 0 ==> final(s)@ == old(s)@.drop_last(),
{
    let n = s.as_str().unicode_len();
    if n == 0 {
        return ;
    }
    let trimmed = s.as_str().substring_char(0, n - 1);
    let r = String::from_str(trimmed);
    *s = r;
    proof {
        assert(old(s)@.subrange(0, old(s)@.len() - 1) =~= old(s)@.drop_last());
    }
}

/// The escape bytes that redraw the command prompt line: jump to the
/// bottom row, clear it, and show `:` plus the buffer.
fn push_prompt_redraw(out: &mut Vec<u8>, buffer: &String)
    ensures
        final(out)@.len() >= old(out)@.len(),
{
    out.push(0x1B);
    out.push(0x5B);
    out.push(0x39);
    out.push(0x39);
    out.push(0x39);
    out.push(0x3B);
    out.push(0x31);
    out.push(0x48);
    out.push(0x1B);
    out.push(0x5B);
    out.push(0x32);
    out.push(0x4B);
    out.push(0x3A);
    let n = buffer.as_str().unicode_len();
    let mut i: usize = 0;
    while i < n
        invariant
            n == buffer@.len(),
            i <= n,
            out@.len() >= old(out)@.len(),
        decreases n - i,
    {
        let c = buffer.as_str().get_char(i);
        let u = c as u32;
        if u < 0x80 {
            out.push(u as u8);
        }
        i += 1;
    }
}

} // verus!
