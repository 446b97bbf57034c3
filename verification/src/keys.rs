//! Key identifiers, modifier sets, the prefix key table with its default
//! tmux-style bindings, key-string parsing, and the key-to-bytes mapping
//! sent to the pseudo-terminal.

use vstd::prelude::*;

use crate::chars::{chars_of_str, string_from_chars};

verus! {

/// Key identifier.
#[derive(Debug, Clone, Copy, PartialEq, Eq, Structural)]
pub enum Key {
    Char(char),
    F(u8),
    Enter,
    Escape,
    Backspace,
    Tab,
    Up,
    Down,
    Left,
    Right,
    Home,
    End,
    PageUp,
    PageDown,
    Insert,
    Delete,
    Space,
}

/// Key modifiers.
#[derive(Debug, Clone, Copy, PartialEq, Eq, Structural)]
pub struct Modifiers {
    pub ctrl: bool,
    pub alt: bool,
    pub shift: bool,
}

impl Modifiers {
    pub open spec fn spec_default() -> Modifiers {
        Modifiers { ctrl: false, alt: false, shift: false }
    }

    pub open spec fn spec_ctrl() -> Modifiers {
        Modifiers { ctrl: true, alt: false, shift: false }
    }
}

impl Default for Modifiers {
    fn default() -> (r: Self)
        ensures
            r == Modifiers::spec_default(),
    {
        Modifiers { ctrl: false, alt: false, shift: false }
    }
}

/// A key with its modifiers: what one keystroke delivers.
#[derive(Debug, Clone, Copy, PartialEq, Eq, Structural)]
pub struct KeyBinding {
    pub key: Key,
    pub modifiers: Modifiers,
}

/// A table of key bindings mapping keys to command strings, reached after
/// the prefix key.
pub struct KeyTable {
    pub prefix: KeyBinding,
    pub bindings: Vec<(KeyBinding, String)>,
}

/// The first index bound to `b`, if any.
pub open spec fn binding_index(bs: Seq<(KeyBinding, String)>, b: KeyBinding) -> Option<int>
    decreases bs.len(),
{
    if bs.len() == 0 {
        None
    } else if bs[0].0 == b {
        Some(0)
    } else {
        match binding_index(bs.drop_first(), b) {
            Some(i) => Some(i + 1),
            None => None,
        }
    }
}

impl KeyTable {
    /// Each key is bound at most once.
    pub open spec fn wf(&self) -> bool {
        forall|i: int, j: int|
            0 <= i < j < self.bindings@.len() ==> (#[trigger] self.bindings@[i]).0 != (
            #[trigger] self.bindings@[j]).0
    }

    pub fn new(prefix: KeyBinding) -> (r: KeyTable)
        ensures
            r.wf(),
            r.prefix == prefix,
            r.bindings@.len() == 0,
    {
        KeyTable { prefix, bindings: Vec::new() }
    }

    /// Bind `key` with `modifiers` to a command, replacing any previous
    /// binding of the same key.
    pub fn bind(&mut self, key: Key, modifiers: Modifiers, command: &str)
        requires
            old(self).wf(),
        ensures
            final(self).wf(),
            final(self).prefix == old(self).prefix,
            binding_index(final(self).bindings@, KeyBinding { key, modifiers }) is Some,
            ({
                let i = binding_index(final(self).bindings@, KeyBinding { key, modifiers })->0;
                final(self).bindings@[i].1@ == command@
            }),
            final(self).bindings@.drop_last() == (match binding_index(
                old(self).bindings@,
                KeyBinding { key, modifiers },
            ) {
                Some(i) => old(self).bindings@.remove(i),
                None => old(self).bindings@,
            }),
            final(self).bindings@.last().0 == (KeyBinding { key, modifiers }),
            final(self).bindings@.last().1@ == command@,
    {
        let b = KeyBinding { key, modifiers };
        self.unbind(key, modifiers);
        let ghost mid = self.bindings@;
        let cmd = string_from_chars(&chars_of_str(command));
        self.bindings.push((b, cmd));
        proof {
            assert forall|q: int, w: int|
                0 <= q < w < self.bindings@.len() implies (#[trigger] self.bindings@[q]).0 != (
            #[trigger] self.bindings@[w]).0 by {
                if w < self.bindings@.len() - 1 {
                    assert(self.bindings@[q] == mid[q]);
                    assert(self.bindings@[w] == mid[w]);
                } else {
                    assert(self.bindings@[q] == mid[q]);
                    assert(self.bindings@[w].0 == b);
                }
            }
            assert forall|q: int| 0 <= q < self.bindings@.len() - 1 implies (
            #[trigger] self.bindings@[q]).0 != b by {
                assert(self.bindings@[q] == mid[q]);
            }
            lemma_binding_index_push(mid, self.bindings@, b);
        }
    }

    /// Remove the binding of `key` with `modifiers`, if any.
    #[verifier::loop_isolation(false)]
    pub fn unbind(&mut self, key: Key, modifiers: Modifiers)
        requires
            old(self).wf(),
        ensures
            final(self).wf(),
            final(self).prefix == old(self).prefix,
            forall|q: int|
                0 <= q < final(self).bindings@.len() ==> (#[trigger] final(self).bindings@[q]).0
                    != (KeyBinding { key, modifiers }),
            binding_index(final(self).bindings@, KeyBinding { key, modifiers }) is None,
            final(self).bindings@ == (match binding_index(
                old(self).bindings@,
                KeyBinding { key, modifiers },
            ) {
                Some(i) => old(self).bindings@.remove(i),
                None => old(self).bindings@,
            }),
    {
        let b = KeyBinding { key, modifiers };
        let n = self.bindings.len();
        let mut i: usize = 0;
        while i < n
            invariant
                old(self).wf(),
                self.prefix == old(self).prefix,
                self.bindings@ == old(self).bindings@,
                n == self.bindings@.len(),
                i <= n,
                forall|q: int| 0 <= q < i ==> (#[trigger] self.bindings@[q]).0 != b,
            decreases n - i,
        {
            if self.bindings[i].0 == b {
                proof {
                    lemma_binding_index_found(self.bindings@, b, i as int);
                }
                self.bindings.remove(i);
                proof {
                    assert forall|q: int| 0 <= q < self.bindings@.len() implies (
                    #[trigger] self.bindings@[q]).0 != b by {
                        if q >= i {
                            assert(self.bindings@[q] == old(self).bindings@[q + 1]);
                        } else {
                            assert(self.bindings@[q] == old(self).bindings@[q]);
                        }
                    }
                    assert forall|q: int, w: int|
                        0 <= q < w < self.bindings@.len() implies (#[trigger] self.bindings@[q]).0
                        != (#[trigger] self.bindings@[w]).0 by {
                        let q0 = if q < i { q } else { q + 1 };
                        let w0 = if w < i { w } else { w + 1 };
                        assert(self.bindings@[q] == old(self).bindings@[q0]);
                        assert(self.bindings@[w] == old(self).bindings@[w0]);
                    }
                    lemma_binding_index_absent(self.bindings@, b);
                }
                return ;
            }
            i += 1;
        }
        proof {
            lemma_binding_index_absent(self.bindings@, b);
        }
    }

    /// The command bound to `binding`, if any.
    pub fn lookup(&self, binding: &KeyBinding) -> (r: Option<&String>)
        ensures
            match r {
                Some(s) => binding_index(self.bindings@, *binding) matches Some(i) && self.bindings@[i].1
                    == *s,
                None => binding_index(self.bindings@, *binding) is None,
            },
    {
        let n = self.bindings.len();
        let mut i: usize = 0;
        while i < n
            invariant
                n == self.bindings@.len(),
                i <= n,
                forall|q: int| 0 <= q < i ==> (#[trigger] self.bindings@[q]).0 != *binding,
            decreases n - i,
        {
            if self.bindings[i].0 == *binding {
                proof {
                    lemma_binding_index_found(self.bindings@, *binding, i as int);
                }
                return Some(&self.bindings[i].1);
            }
            i += 1;
        }
        proof {
            lemma_binding_index_none(self.bindings@, *binding);
        }
        None
    }

    /// The default tmux-compatible key table: Ctrl-B prefix and the
    /// standard binding set, each key bound to its command.
    #[verifier::rlimit(100)]
    #[verifier::spinoff_prover]
    pub fn default_tmux_bindings() -> (r: KeyTable)
        ensures
            r.wf(),
            r.prefix == (KeyBinding { key: Key::Char('b'), modifiers: Modifiers::spec_ctrl() }),
            r.bindings@.len() == 42,
            binding_index(r.bindings@, (KeyBinding { key: Key::Char('%'), modifiers: Modifiers::spec_default() })) == Some(0int),
            r.bindings@[0].1@ == "split-window -h"@,
            binding_index(r.bindings@, (KeyBinding { key: Key::Char('"'), modifiers: Modifiers::spec_default() })) == Some(1int),
            r.bindings@[1].1@ == "split-window -v"@,
            binding_index(r.bindings@, (KeyBinding { key: Key::Char('c'), modifiers: Modifiers::spec_default() })) == Some(2int),
            r.bindings@[2].1@ == "new-window"@,
            binding_index(r.bindings@, (KeyBinding { key: Key::Char('d'), modifiers: Modifiers::spec_default() })) == Some(3int),
            r.bindings@[3].1@ == "detach-client"@,
            binding_index(r.bindings@, (KeyBinding { key: Key::Char('n'), modifiers: Modifiers::spec_default() })) == Some(4int),
            r.bindings@[4].1@ == "next-window"@,
            binding_index(r.bindings@, (KeyBinding { key: Key::Char('p'), modifiers: Modifiers::spec_default() })) == Some(5int),
            r.bindings@[5].1@ == "previous-window"@,
            binding_index(r.bindings@, (KeyBinding { key: Key::Char('l'), modifiers: Modifiers::spec_default() })) == Some(6int),
            r.bindings@[6].1@ == "last-window"@,
            binding_index(r.bindings@, (KeyBinding { key: Key::Char('w'), modifiers: Modifiers::spec_default() })) == Some(7int),
            r.bindings@[7].1@ == "choose-window"@,
            binding_index(r.bindings@, (KeyBinding { key: Key::Char(','), modifiers: Modifiers::spec_default() })) == Some(8int),
            r.bindings@[8].1@ == "rename-window"@,
            binding_index(r.bindings@, (KeyBinding { key: Key::Char('$'), modifiers: Modifiers::spec_default() })) == Some(9int),
            r.bindings@[9].1@ == "rename-session"@,
            binding_index(r.bindings@, (KeyBinding { key: Key::Char('&'), modifiers: Modifiers::spec_default() })) == Some(10int),
            r.bindings@[10].1@ == "kill-window"@,
            binding_index(r.bindings@, (KeyBinding { key: Key::Char('x'), modifiers: Modifiers::spec_default() })) == Some(11int),
            r.bindings@[11].1@ == "kill-pane"@,
            binding_index(r.bindings@, (KeyBinding { key: Key::Char('0'), modifiers: Modifiers::spec_default() })) == Some(12int),
            r.bindings@[12].1@ == "select-window -t 0"@,
            binding_index(r.bindings@, (KeyBinding { key: Key::Char('1'), modifiers: Modifiers::spec_default() })) == Some(13int),
            r.bindings@[13].1@ == "select-window -t 1"@,
            binding_index(r.bindings@, (KeyBinding { key: Key::Char('2'), modifiers: Modifiers::spec_default() })) == Some(14int),
            r.bindings@[14].1@ == "select-window -t 2"@,
            binding_index(r.bindings@, (KeyBinding { key: Key::Char('3'), modifiers: Modifiers::spec_default() })) == Some(15int),
            r.bindings@[15].1@ == "select-window -t 3"@,
            binding_index(r.bindings@, (KeyBinding { key: Key::Char('4'), modifiers: Modifiers::spec_default() })) == Some(16int),
            r.bindings@[16].1@ == "select-window -t 4"@,
            binding_index(r.bindings@, (KeyBinding { key: Key::Char('5'), modifiers: Modifiers::spec_default() })) == Some(17int),
            r.bindings@[17].1@ == "select-window -t 5"@,
            binding_index(r.bindings@, (KeyBinding { key: Key::Char('6'), modifiers: Modifiers::spec_default() })) == Some(18int),
            r.bindings@[18].1@ == "select-window -t 6"@,
            binding_index(r.bindings@, (KeyBinding { key: Key::Char('7'), modifiers: Modifiers::spec_default() })) == Some(19int),
            r.bindings@[19].1@ == "select-window -t 7"@,
            binding_index(r.bindings@, (KeyBinding { key: Key::Char('8'), modifiers: Modifiers::spec_default() })) == Some(20int),
            r.bindings@[20].1@ == "select-window -t 8"@,
            binding_index(r.bindings@, (KeyBinding { key: Key::Char('9'), modifiers: Modifiers::spec_default() })) == Some(21int),
            r.bindings@[21].1@ == "select-window -t 9"@,
            binding_index(r.bindings@, (KeyBinding { key: Key::Up, modifiers: Modifiers::spec_default() })) == Some(22int),
            r.bindings@[22].1@ == "select-pane -U"@,
            binding_index(r.bindings@, (KeyBinding { key: Key::Down, modifiers: Modifiers::spec_default() })) == Some(23int),
            r.bindings@[23].1@ == "select-pane -D"@,
            binding_index(r.bindings@, (KeyBinding { key: Key::Left, modifiers: Modifiers::spec_default() })) == Some(24int),
            r.bindings@[24].1@ == "select-pane -L"@,
            binding_index(r.bindings@, (KeyBinding { key: Key::Right, modifiers: Modifiers::spec_default() })) == Some(25int),
            r.bindings@[25].1@ == "select-pane -R"@,
            binding_index(r.bindings@, (KeyBinding { key: Key::Up, modifiers: Modifiers::spec_ctrl() })) == Some(26int),
            r.bindings@[26].1@ == "resize-pane -U 1"@,
            binding_index(r.bindings@, (KeyBinding { key: Key::Down, modifiers: Modifiers::spec_ctrl() })) == Some(27int),
            r.bindings@[27].1@ == "resize-pane -D 1"@,
            binding_index(r.bindings@, (KeyBinding { key: Key::Left, modifiers: Modifiers::spec_ctrl() })) == Some(28int),
            r.bindings@[28].1@ == "resize-pane -L 1"@,
            binding_index(r.bindings@, (KeyBinding { key: Key::Right, modifiers: Modifiers::spec_ctrl() })) == Some(29int),
            r.bindings@[29].1@ == "resize-pane -R 1"@,
            binding_index(r.bindings@, (KeyBinding { key: Key::Char('z'), modifiers: Modifiers::spec_default() })) == Some(30int),
            r.bindings@[30].1@ == "resize-pane -Z"@,
            binding_index(r.bindings@, (KeyBinding { key: Key::Char('['), modifiers: Modifiers::spec_default() })) == Some(31int),
            r.bindings@[31].1@ == "copy-mode"@,
            binding_index(r.bindings@, (KeyBinding { key: Key::Char(']'), modifiers: Modifiers::spec_default() })) == Some(32int),
            r.bindings@[32].1@ == "paste-buffer"@,
            binding_index(r.bindings@, (KeyBinding { key: Key::PageUp, modifiers: Modifiers::spec_default() })) == Some(33int),
            r.bindings@[33].1@ == "copy-mode -u"@,
            binding_index(r.bindings@, (KeyBinding { key: Key::Char(':'), modifiers: Modifiers::spec_default() })) == Some(34int),
            r.bindings@[34].1@ == "command-prompt"@,
            binding_index(r.bindings@, (KeyBinding { key: Key::Char('t'), modifiers: Modifiers::spec_default() })) == Some(35int),
            r.bindings@[35].1@ == "clock-mode"@,
            binding_index(r.bindings@, (KeyBinding { key: Key::Char('?'), modifiers: Modifiers::spec_default() })) == Some(36int),
            r.bindings@[36].1@ == "list-keys"@,
            binding_index(r.bindings@, (KeyBinding { key: Key::Char('o'), modifiers: Modifiers::spec_default() })) == Some(37int),
            r.bindings@[37].1@ == "select-pane -t :.+"@,
            binding_index(r.bindings@, (KeyBinding { key: Key::Char(';'), modifiers: Modifiers::spec_default() })) == Some(38int),
            r.bindings@[38].1@ == "last-pane"@,
            binding_index(r.bindings@, (KeyBinding { key: Key::Char('{'), modifiers: Modifiers::spec_default() })) == Some(39int),
            r.bindings@[39].1@ == "swap-pane -U"@,
            binding_index(r.bindings@, (KeyBinding { key: Key::Char('}'), modifiers: Modifiers::spec_default() })) == Some(40int),
            r.bindings@[40].1@ == "swap-pane -D"@,
            binding_index(r.bindings@, (KeyBinding { key: Key::Space, modifiers: Modifiers::spec_default() })) == Some(41int),
            r.bindings@[41].1@ == "next-layout"@,
    {
        let prefix = KeyBinding {
            key: Key::Char('b'),
            modifiers: Modifiers { ctrl: true, alt: false, shift: false },
        };
        let mut bindings: Vec<(KeyBinding, String)> = Vec::new();
        push_binding(&mut bindings, Key::Char('%'), Modifiers { ctrl: false, alt: false, shift: false }, "split-window -h");
        push_binding(&mut bindings, Key::Char('"'), Modifiers { ctrl: false, alt: false, shift: false }, "split-window -v");
        push_binding(&mut bindings, Key::Char('c'), Modifiers { ctrl: false, alt: false, shift: false }, "new-window");
        push_binding(&mut bindings, Key::Char('d'), Modifiers { ctrl: false, alt: false, shift: false }, "detach-client");
        push_binding(&mut bindings, Key::Char('n'), Modifiers { ctrl: false, alt: false, shift: false }, "next-window");
        push_binding(&mut bindings, Key::Char('p'), Modifiers { ctrl: false, alt: false, shift: false }, "previous-window");
        push_binding(&mut bindings, Key::Char('l'), Modifiers { ctrl: false, alt: false, shift: false }, "last-window");
        push_binding(&mut bindings, Key::Char('w'), Modifiers { ctrl: false, alt: false, shift: false }, "choose-window");
        push_binding(&mut bindings, Key::Char(','), Modifiers { ctrl: false, alt: false, shift: false }, "rename-window");
        push_binding(&mut bindings, Key::Char('$'), Modifiers { ctrl: false, alt: false, shift: false }, "rename-session");
        push_binding(&mut bindings, Key::Char('&'), Modifiers { ctrl: false, alt: false, shift: false }, "kill-window");
        push_binding(&mut bindings, Key::Char('x'), Modifiers { ctrl: false, alt: false, shift: false }, "kill-pane");
        push_binding(&mut bindings, Key::Char('0'), Modifiers { ctrl: false, alt: false, shift: false }, "select-window -t 0");
        push_binding(&mut bindings, Key::Char('1'), Modifiers { ctrl: false, alt: false, shift: false }, "select-window -t 1");
        push_binding(&mut bindings, Key::Char('2'), Modifiers { ctrl: false, alt: false, shift: false }, "select-window -t 2");
        push_binding(&mut bindings, Key::Char('3'), Modifiers { ctrl: false, alt: false, shift: false }, "select-window -t 3");
        push_binding(&mut bindings, Key::Char('4'), Modifiers { ctrl: false, alt: false, shift: false }, "select-window -t 4");
        push_binding(&mut bindings, Key::Char('5'), Modifiers { ctrl: false, alt: false, shift: false }, "select-window -t 5");
        push_binding(&mut bindings, Key::Char('6'), Modifiers { ctrl: false, alt: false, shift: false }, "select-window -t 6");
        push_binding(&mut bindings, Key::Char('7'), Modifiers { ctrl: false, alt: false, shift: false }, "select-window -t 7");
        push_binding(&mut bindings, Key::Char('8'), Modifiers { ctrl: false, alt: false, shift: false }, "select-window -t 8");
        push_binding(&mut bindings, Key::Char('9'), Modifiers { ctrl: false, alt: false, shift: false }, "select-window -t 9");
        push_binding(&mut bindings, Key::Up, Modifiers { ctrl: false, alt: false, shift: false }, "select-pane -U");
        push_binding(&mut bindings, Key::Down, Modifiers { ctrl: false, alt: false, shift: false }, "select-pane -D");
        push_binding(&mut bindings, Key::Left, Modifiers { ctrl: false, alt: false, shift: false }, "select-pane -L");
        push_binding(&mut bindings, Key::Right, Modifiers { ctrl: false, alt: false, shift: false }, "select-pane -R");
        push_binding(&mut bindings, Key::Up, Modifiers { ctrl: true, alt: false, shift: false }, "resize-pane -U 1");
        push_binding(&mut bindings, Key::Down, Modifiers { ctrl: true, alt: false, shift: false }, "resize-pane -D 1");
        push_binding(&mut bindings, Key::Left, Modifiers { ctrl: true, alt: false, shift: false }, "resize-pane -L 1");
        push_binding(&mut bindings, Key::Right, Modifiers { ctrl: true, alt: false, shift: false }, "resize-pane -R 1");
        push_binding(&mut bindings, Key::Char('z'), Modifiers { ctrl: false, alt: false, shift: false }, "resize-pane -Z");
        push_binding(&mut bindings, Key::Char('['), Modifiers { ctrl: false, alt: false, shift: false }, "copy-mode");
        push_binding(&mut bindings, Key::Char(']'), Modifiers { ctrl: false, alt: false, shift: false }, "paste-buffer");
        push_binding(&mut bindings, Key::PageUp, Modifiers { ctrl: false, alt: false, shift: false }, "copy-mode -u");
        push_binding(&mut bindings, Key::Char(':'), Modifiers { ctrl: false, alt: false, shift: false }, "command-prompt");
        push_binding(&mut bindings, Key::Char('t'), Modifiers { ctrl: false, alt: false, shift: false }, "clock-mode");
        push_binding(&mut bindings, Key::Char('?'), Modifiers { ctrl: false, alt: false, shift: false }, "list-keys");
        push_binding(&mut bindings, Key::Char('o'), Modifiers { ctrl: false, alt: false, shift: false }, "select-pane -t :.+");
        push_binding(&mut bindings, Key::Char(';'), Modifiers { ctrl: false, alt: false, shift: false }, "last-pane");
        push_binding(&mut bindings, Key::Char('{'), Modifiers { ctrl: false, alt: false, shift: false }, "swap-pane -U");
        push_binding(&mut bindings, Key::Char('}'), Modifiers { ctrl: false, alt: false, shift: false }, "swap-pane -D");
        push_binding(&mut bindings, Key::Space, Modifiers { ctrl: false, alt: false, shift: false }, "next-layout");
        let r = KeyTable { prefix, bindings };
        proof {
            assert(binding_index(r.bindings@, (KeyBinding { key: Key::Char('%'), modifiers: Modifiers::spec_default() })) == Some(0int)) by {
                lemma_binding_index_found(r.bindings@, (KeyBinding { key: Key::Char('%'), modifiers: Modifiers::spec_default() }), 0int);
            }
            assert(binding_index(r.bindings@, (KeyBinding { key: Key::Char('"'), modifiers: Modifiers::spec_default() })) == Some(1int)) by {
                lemma_binding_index_found(r.bindings@, (KeyBinding { key: Key::Char('"'), modifiers: Modifiers::spec_default() }), 1int);
            }
            assert(binding_index(r.bindings@, (KeyBinding { key: Key::Char('c'), modifiers: Modifiers::spec_default() })) == Some(2int)) by {
                lemma_binding_index_found(r.bindings@, (KeyBinding { key: Key::Char('c'), modifiers: Modifiers::spec_default() }), 2int);
            }
            assert(binding_index(r.bindings@, (KeyBinding { key: Key::Char('d'), modifiers: Modifiers::spec_default() })) == Some(3int)) by {
                lemma_binding_index_found(r.bindings@, (KeyBinding { key: Key::Char('d'), modifiers: Modifiers::spec_default() }), 3int);
            }
            assert(binding_index(r.bindings@, (KeyBinding { key: Key::Char('n'), modifiers: Modifiers::spec_default() })) == Some(4int)) by {
                lemma_binding_index_found(r.bindings@, (KeyBinding { key: Key::Char('n'), modifiers: Modifiers::spec_default() }), 4int);
            }
            assert(binding_index(r.bindings@, (KeyBinding { key: Key::Char('p'), modifiers: Modifiers::spec_default() })) == Some(5int)) by {
                lemma_binding_index_found(r.bindings@, (KeyBinding { key: Key::Char('p'), modifiers: Modifiers::spec_default() }), 5int);
            }
            assert(binding_index(r.bindings@, (KeyBinding { key: Key::Char('l'), modifiers: Modifiers::spec_default() })) == Some(6int)) by {
                lemma_binding_index_found(r.bindings@, (KeyBinding { key: Key::Char('l'), modifiers: Modifiers::spec_default() }), 6int);
            }
            assert(binding_index(r.bindings@, (KeyBinding { key: Key::Char('w'), modifiers: Modifiers::spec_default() })) == Some(7int)) by {
                lemma_binding_index_found(r.bindings@, (KeyBinding { key: Key::Char('w'), modifiers: Modifiers::spec_default() }), 7int);
            }
            assert(binding_index(r.bindings@, (KeyBinding { key: Key::Char(','), modifiers: Modifiers::spec_default() })) == Some(8int)) by {
                lemma_binding_index_found(r.bindings@, (KeyBinding { key: Key::Char(','), modifiers: Modifiers::spec_default() }), 8int);
            }
            assert(binding_index(r.bindings@, (KeyBinding { key: Key::Char('$'), modifiers: Modifiers::spec_default() })) == Some(9int)) by {
                lemma_binding_index_found(r.bindings@, (KeyBinding { key: Key::Char('$'), modifiers: Modifiers::spec_default() }), 9int);
            }
            assert(binding_index(r.bindings@, (KeyBinding { key: Key::Char('&'), modifiers: Modifiers::spec_default() })) == Some(10int)) by {
                lemma_binding_index_found(r.bindings@, (KeyBinding { key: Key::Char('&'), modifiers: Modifiers::spec_default() }), 10int);
            }
            assert(binding_index(r.bindings@, (KeyBinding { key: Key::Char('x'), modifiers: Modifiers::spec_default() })) == Some(11int)) by {
                lemma_binding_index_found(r.bindings@, (KeyBinding { key: Key::Char('x'), modifiers: Modifiers::spec_default() }), 11int);
            }
            assert(binding_index(r.bindings@, (KeyBinding { key: Key::Char('0'), modifiers: Modifiers::spec_default() })) == Some(12int)) by {
                lemma_binding_index_found(r.bindings@, (KeyBinding { key: Key::Char('0'), modifiers: Modifiers::spec_default() }), 12int);
            }
            assert(binding_index(r.bindings@, (KeyBinding { key: Key::Char('1'), modifiers: Modifiers::spec_default() })) == Some(13int)) by {
                lemma_binding_index_found(r.bindings@, (KeyBinding { key: Key::Char('1'), modifiers: Modifiers::spec_default() }), 13int);
            }
            assert(binding_index(r.bindings@, (KeyBinding { key: Key::Char('2'), modifiers: Modifiers::spec_default() })) == Some(14int)) by {
                lemma_binding_index_found(r.bindings@, (KeyBinding { key: Key::Char('2'), modifiers: Modifiers::spec_default() }), 14int);
            }
            assert(binding_index(r.bindings@, (KeyBinding { key: Key::Char('3'), modifiers: Modifiers::spec_default() })) == Some(15int)) by {
                lemma_binding_index_found(r.bindings@, (KeyBinding { key: Key::Char('3'), modifiers: Modifiers::spec_default() }), 15int);
            }
            assert(binding_index(r.bindings@, (KeyBinding { key: Key::Char('4'), modifiers: Modifiers::spec_default() })) == Some(16int)) by {
                lemma_binding_index_found(r.bindings@, (KeyBinding { key: Key::Char('4'), modifiers: Modifiers::spec_default() }), 16int);
            }
            assert(binding_index(r.bindings@, (KeyBinding { key: Key::Char('5'), modifiers: Modifiers::spec_default() })) == Some(17int)) by {
                lemma_binding_index_found(r.bindings@, (KeyBinding { key: Key::Char('5'), modifiers: Modifiers::spec_default() }), 17int);
            }
            assert(binding_index(r.bindings@, (KeyBinding { key: Key::Char('6'), modifiers: Modifiers::spec_default() })) == Some(18int)) by {
                lemma_binding_index_found(r.bindings@, (KeyBinding { key: Key::Char('6'), modifiers: Modifiers::spec_default() }), 18int);
            }
            assert(binding_index(r.bindings@, (KeyBinding { key: Key::Char('7'), modifiers: Modifiers::spec_default() })) == Some(19int)) by {
                lemma_binding_index_found(r.bindings@, (KeyBinding { key: Key::Char('7'), modifiers: Modifiers::spec_default() }), 19int);
            }
            assert(binding_index(r.bindings@, (KeyBinding { key: Key::Char('8'), modifiers: Modifiers::spec_default() })) == Some(20int)) by {
                lemma_binding_index_found(r.bindings@, (KeyBinding { key: Key::Char('8'), modifiers: Modifiers::spec_default() }), 20int);
            }
            assert(binding_index(r.bindings@, (KeyBinding { key: Key::Char('9'), modifiers: Modifiers::spec_default() })) == Some(21int)) by {
                lemma_binding_index_found(r.bindings@, (KeyBinding { key: Key::Char('9'), modifiers: Modifiers::spec_default() }), 21int);
            }
            assert(binding_index(r.bindings@, (KeyBinding { key: Key::Up, modifiers: Modifiers::spec_default() })) == Some(22int)) by {
                lemma_binding_index_found(r.bindings@, (KeyBinding { key: Key::Up, modifiers: Modifiers::spec_default() }), 22int);
            }
            assert(binding_index(r.bindings@, (KeyBinding { key: Key::Down, modifiers: Modifiers::spec_default() })) == Some(23int)) by {
                lemma_binding_index_found(r.bindings@, (KeyBinding { key: Key::Down, modifiers: Modifiers::spec_default() }), 23int);
            }
            assert(binding_index(r.bindings@, (KeyBinding { key: Key::Left, modifiers: Modifiers::spec_default() })) == Some(24int)) by {
                lemma_binding_index_found(r.bindings@, (KeyBinding { key: Key::Left, modifiers: Modifiers::spec_default() }), 24int);
            }
            assert(binding_index(r.bindings@, (KeyBinding { key: Key::Right, modifiers: Modifiers::spec_default() })) == Some(25int)) by {
                lemma_binding_index_found(r.bindings@, (KeyBinding { key: Key::Right, modifiers: Modifiers::spec_default() }), 25int);
            }
            assert(binding_index(r.bindings@, (KeyBinding { key: Key::Up, modifiers: Modifiers::spec_ctrl() })) == Some(26int)) by {
                lemma_binding_index_found(r.bindings@, (KeyBinding { key: Key::Up, modifiers: Modifiers::spec_ctrl() }), 26int);
            }
            assert(binding_index(r.bindings@, (KeyBinding { key: Key::Down, modifiers: Modifiers::spec_ctrl() })) == Some(27int)) by {
                lemma_binding_index_found(r.bindings@, (KeyBinding { key: Key::Down, modifiers: Modifiers::spec_ctrl() }), 27int);
            }
            assert(binding_index(r.bindings@, (KeyBinding { key: Key::Left, modifiers: Modifiers::spec_ctrl() })) == Some(28int)) by {
                lemma_binding_index_found(r.bindings@, (KeyBinding { key: Key::Left, modifiers: Modifiers::spec_ctrl() }), 28int);
            }
            assert(binding_index(r.bindings@, (KeyBinding { key: Key::Right, modifiers: Modifiers::spec_ctrl() })) == Some(29int)) by {
                lemma_binding_index_found(r.bindings@, (KeyBinding { key: Key::Right, modifiers: Modifiers::spec_ctrl() }), 29int);
            }
            assert(binding_index(r.bindings@, (KeyBinding { key: Key::Char('z'), modifiers: Modifiers::spec_default() })) == Some(30int)) by {
                lemma_binding_index_found(r.bindings@, (KeyBinding { key: Key::Char('z'), modifiers: Modifiers::spec_default() }), 30int);
            }
            assert(binding_index(r.bindings@, (KeyBinding { key: Key::Char('['), modifiers: Modifiers::spec_default() })) == Some(31int)) by {
                lemma_binding_index_found(r.bindings@, (KeyBinding { key: Key::Char('['), modifiers: Modifiers::spec_default() }), 31int);
            }
            assert(binding_index(r.bindings@, (KeyBinding { key: Key::Char(']'), modifiers: Modifiers::spec_default() })) == Some(32int)) by {
                lemma_binding_index_found(r.bindings@, (KeyBinding { key: Key::Char(']'), modifiers: Modifiers::spec_default() }), 32int);
            }
            assert(binding_index(r.bindings@, (KeyBinding { key: Key::PageUp, modifiers: Modifiers::spec_default() })) == Some(33int)) by {
                lemma_binding_index_found(r.bindings@, (KeyBinding { key: Key::PageUp, modifiers: Modifiers::spec_default() }), 33int);
            }
            assert(binding_index(r.bindings@, (KeyBinding { key: Key::Char(':'), modifiers: Modifiers::spec_default() })) == Some(34int)) by {
                lemma_binding_index_found(r.bindings@, (KeyBinding { key: Key::Char(':'), modifiers: Modifiers::spec_default() }), 34int);
            }
            assert(binding_index(r.bindings@, (KeyBinding { key: Key::Char('t'), modifiers: Modifiers::spec_default() })) == Some(35int)) by {
                lemma_binding_index_found(r.bindings@, (KeyBinding { key: Key::Char('t'), modifiers: Modifiers::spec_default() }), 35int);
            }
            assert(binding_index(r.bindings@, (KeyBinding { key: Key::Char('?'), modifiers: Modifiers::spec_default() })) == Some(36int)) by {
                lemma_binding_index_found(r.bindings@, (KeyBinding { key: Key::Char('?'), modifiers: Modifiers::spec_default() }), 36int);
            }
            assert(binding_index(r.bindings@, (KeyBinding { key: Key::Char('o'), modifiers: Modifiers::spec_default() })) == Some(37int)) by {
                lemma_binding_index_found(r.bindings@, (KeyBinding { key: Key::Char('o'), modifiers: Modifiers::spec_default() }), 37int);
            }
            assert(binding_index(r.bindings@, (KeyBinding { key: Key::Char(';'), modifiers: Modifiers::spec_default() })) == Some(38int)) by {
                lemma_binding_index_found(r.bindings@, (KeyBinding { key: Key::Char(';'), modifiers: Modifiers::spec_default() }), 38int);
            }
            assert(binding_index(r.bindings@, (KeyBinding { key: Key::Char('{'), modifiers: Modifiers::spec_default() })) == Some(39int)) by {
                lemma_binding_index_found(r.bindings@, (KeyBinding { key: Key::Char('{'), modifiers: Modifiers::spec_default() }), 39int);
            }
            assert(binding_index(r.bindings@, (KeyBinding { key: Key::Char('}'), modifiers: Modifiers::spec_default() })) == Some(40int)) by {
                lemma_binding_index_found(r.bindings@, (KeyBinding { key: Key::Char('}'), modifiers: Modifiers::spec_default() }), 40int);
            }
            assert(binding_index(r.bindings@, (KeyBinding { key: Key::Space, modifiers: Modifiers::spec_default() })) == Some(41int)) by {
                lemma_binding_index_found(r.bindings@, (KeyBinding { key: Key::Space, modifiers: Modifiers::spec_default() }), 41int);
            }
        }
        r
    }
}

proof fn lemma_binding_index_absent(bs: Seq<(KeyBinding, String)>, b: KeyBinding)
    requires
        forall|q: int| 0 <= q < bs.len() ==> (#[trigger] bs[q]).0 != b,
    ensures
        binding_index(bs, b) is None,
    decreases bs.len(),
{
    if bs.len() > 0 {
        assert forall|q: int| 0 <= q < bs.drop_first().len() implies (
        #[trigger] bs.drop_first()[q]).0 != b by {
            assert(bs.drop_first()[q] == bs[q + 1]);
        }
        lemma_binding_index_absent(bs.drop_first(), b);
    }
}

proof fn lemma_binding_index_none(bs: Seq<(KeyBinding, String)>, b: KeyBinding)
    requires
        forall|q: int| 0 <= q < bs.len() ==> (#[trigger] bs[q]).0 != b,
    ensures
        binding_index(bs, b) is None,
{
    lemma_binding_index_absent(bs, b);
}

proof fn lemma_binding_index_found(bs: Seq<(KeyBinding, String)>, b: KeyBinding, i: int)
    requires
        0 <= i < bs.len(),
        bs[i].0 == b,
        forall|q: int| 0 <= q < i ==> (#[trigger] bs[q]).0 != b,
    ensures
        binding_index(bs, b) == Some(i),
    decreases i,
{
    if i == 0 {
    } else {
        assert forall|q: int| 0 <= q < i - 1 implies (#[trigger] bs.drop_first()[q]).0 != b by {
            assert(bs.drop_first()[q] == bs[q + 1]);
        }
        assert(bs.drop_first()[i - 1] == bs[i]);
        lemma_binding_index_found(bs.drop_first(), b, i - 1);
    }
}

proof fn lemma_binding_index_push(
    pre: Seq<(KeyBinding, String)>,
    bs: Seq<(KeyBinding, String)>,
    b: KeyBinding,
)
    requires
        bs.len() >= 1,
        bs[bs.len() - 1].0 == b,
        forall|q: int| 0 <= q < bs.len() - 1 ==> (#[trigger] bs[q]).0 != b,
    ensures
        binding_index(bs, b) == Some(bs.len() - 1),
{
    lemma_binding_index_found(bs, b, bs.len() - 1);
}


/// Append one binding pair.
fn push_binding(bindings: &mut Vec<(KeyBinding, String)>, key: Key, modifiers: Modifiers, command: &str)
    ensures
        final(bindings)@.len() == old(bindings)@.len() + 1,
        final(bindings)@.subrange(0, old(bindings)@.len() as int) == old(bindings)@,
        final(bindings)@.last().0 == (KeyBinding { key, modifiers }),
        final(bindings)@.last().1@ == command@,
{
    let cmd = string_from_chars(&chars_of_str(command));
    bindings.push((KeyBinding { key, modifiers }, cmd));
    proof {
        assert(bindings@.subrange(0, old(bindings)@.len() as int) =~= old(bindings)@);
    }
}


/// Whether position `i` starts a modifier pair (`C-`, `M-` or `S-`, in
/// either case).
pub open spec fn mod_at(s: Seq<char>, i: int) -> bool {
    &&& 0 <= i
    &&& i + 1 < s.len()
    &&& s[i + 1] == '-'
    &&& (s[i] == 'C' || s[i] == 'c' || s[i] == 'M' || s[i] == 'm' || s[i] == 'S' || s[i] == 's')
}

/// The modifiers accumulated from position `i` on, and the index where
/// the key name begins.
pub open spec fn mods_from(s: Seq<char>, i: int, m: Modifiers) -> (Modifiers, int)
    decreases s.len() - i,
{
    if mod_at(s, i) {
        let m2 = if s[i] == 'C' || s[i] == 'c' {
            Modifiers { ctrl: true, ..m }
        } else if s[i] == 'M' || s[i] == 'm' {
            Modifiers { alt: true, ..m }
        } else {
            Modifiers { shift: true, ..m }
        };
        mods_from(s, i + 2, m2)
    } else {
        (m, i)
    }
}

/// The key a name denotes: the named special keys (in the accepted
/// spellings), `F` plus a number up to 255, or any single character.
pub open spec fn key_name_spec(rest: Seq<char>) -> Option<Key> {
    if rest == "Enter"@ || rest == "enter"@ {
        Some(Key::Enter)
    } else if rest == "Escape"@ || rest == "escape"@ || rest == "Esc"@ || rest == "esc"@ {
        Some(Key::Escape)
    } else if rest == "Space"@ || rest == "space"@ {
        Some(Key::Space)
    } else if rest == "Backspace"@ || rest == "BSpace"@ || rest == "bspace"@ {
        Some(Key::Backspace)
    } else if rest == "Tab"@ || rest == "tab"@ {
        Some(Key::Tab)
    } else if rest == "Up"@ || rest == "up"@ {
        Some(Key::Up)
    } else if rest == "Down"@ || rest == "down"@ {
        Some(Key::Down)
    } else if rest == "Left"@ || rest == "left"@ {
        Some(Key::Left)
    } else if rest == "Right"@ || rest == "right"@ {
        Some(Key::Right)
    } else if rest == "Home"@ || rest == "home"@ {
        Some(Key::Home)
    } else if rest == "End"@ || rest == "end"@ {
        Some(Key::End)
    } else if rest == "PageUp"@ || rest == "PgUp"@ || rest == "pgup"@ {
        Some(Key::PageUp)
    } else if rest == "PageDown"@ || rest == "PgDn"@ || rest == "pgdn"@ {
        Some(Key::PageDown)
    } else if rest == "Insert"@ || rest == "insert"@ {
        Some(Key::Insert)
    } else if rest == "Delete"@ || rest == "delete"@ || rest == "DC"@ || rest == "dc"@ {
        Some(Key::Delete)
    } else if rest.len() >= 2 && (rest[0] == 'F' || rest[0] == 'f') {
        let tail = rest.drop_first();
        if crate::options::is_decimal(tail) && crate::options::dec_value(tail) <= 255 {
            Some(Key::F(crate::options::dec_value(tail) as u8))
        } else {
            None
        }
    } else if rest.len() == 1 {
        Some(Key::Char(rest[0]))
    } else {
        None
    }
}

/// What `parse_key` yields: the accumulated modifiers, then the key the
/// remainder names.
pub open spec fn parse_key_spec(s: Seq<char>) -> Option<KeyBinding> {
    let (m, i) = mods_from(s, 0, Modifiers::spec_default());
    match key_name_spec(s.subrange(i, s.len() as int)) {
        Some(k) => Some(KeyBinding { key: k, modifiers: m }),
        None => None,
    }
}

/// Parse a key string such as `C-b`, `M-a`, `Up` or `F1`: the modifier
/// prefixes accumulate, then the remainder names the key.
#[verifier::loop_isolation(false)]
pub fn parse_key(s: &str) -> (r: Option<KeyBinding>)
    ensures
        r == parse_key_spec(s@),
{
    let cs = chars_of_str(s);
    let n = cs.len();
    let mut i: usize = 0;
    let mut modifiers = Modifiers { ctrl: false, alt: false, shift: false };
    while i < n && i + 1 < n && cs[i + 1] == '-' && (cs[i] == 'C' || cs[i] == 'c' || cs[i] == 'M' || cs[i]
        == 'm' || cs[i] == 'S' || cs[i] == 's')
        invariant
            n == cs@.len(),
            cs@ == s@,
            i <= n,
            mods_from(s@, i as int, modifiers) == mods_from(s@, 0, Modifiers::spec_default()),
        decreases n - i,
    {
        let c = cs[i];
        if c == 'C' || c == 'c' {
            modifiers.ctrl = true;
        } else if c == 'M' || c == 'm' {
            modifiers.alt = true;
        } else {
            modifiers.shift = true;
        }
        i += 2;
    }
    proof {
        assert(!mod_at(s@, i as int));
        assert(mods_from(s@, i as int, modifiers) == (modifiers, i as int));
    }
    let mut rest: Vec<char> = Vec::new();
    let mut j: usize = i;
    while j < n
        invariant
            n == cs@.len(),
            cs@ == s@,
            i <= j <= n,
            rest@ =~= s@.subrange(i as int, j as int),
        decreases n - j,
    {
        rest.push(cs[j]);
        proof {
            assert(rest@ =~= s@.subrange(i as int, j + 1 as int));
        }
        j += 1;
    }
    let key: Option<Key> = key_name(&rest);
    match key {
        Some(k) => Some(KeyBinding { key: k, modifiers }),
        None => None,
    }
}

/// Whether two character vectors hold the same text.
fn chars_eq_str(v: &Vec<char>, s: &str) -> (r: bool)
    ensures
        r == (v@ == s@),
{
    let cs = chars_of_str(s);
    if v.len() != cs.len() {
        proof {
            assert(v@.len() != s@.len());
        }
        return false;
    }
    let n = v.len();
    let mut i: usize = 0;
    while i < n
        invariant
            n == v@.len(),
            n == cs@.len(),
            cs@ == s@,
            i <= n,
            forall|q: int| 0 <= q < i ==> v@[q] == cs@[q],
        decreases n - i,
    {
        if v[i] != cs[i] {
            proof {
                assert(v@[i as int] != s@[i as int]);
            }
            return false;
        }
        i += 1;
    }
    proof {
        assert(v@ =~= s@);
    }
    true
}

/// The named key for a key string's tail, if it is recognised.
#[verifier::rlimit(100)]
#[verifier::spinoff_prover]
#[verifier::loop_isolation(false)]
fn key_name(rest: &Vec<char>) -> (r: Option<Key>)
    ensures
        r == key_name_spec(rest@),
{
    if chars_eq_str(rest, "Enter") || chars_eq_str(rest, "enter") {
        Some(Key::Enter)
    } else if chars_eq_str(rest, "Escape") || chars_eq_str(rest, "escape") || chars_eq_str(
        rest,
        "Esc",
    ) || chars_eq_str(rest, "esc") {
        Some(Key::Escape)
    } else if chars_eq_str(rest, "Space") || chars_eq_str(rest, "space") {
        Some(Key::Space)
    } else if chars_eq_str(rest, "Backspace") || chars_eq_str(rest, "BSpace") || chars_eq_str(
        rest,
        "bspace",
    ) {
        Some(Key::Backspace)
    } else if chars_eq_str(rest, "Tab") || chars_eq_str(rest, "tab") {
        Some(Key::Tab)
    } else if chars_eq_str(rest, "Up") || chars_eq_str(rest, "up") {
        Some(Key::Up)
    } else if chars_eq_str(rest, "Down") || chars_eq_str(rest, "down") {
        Some(Key::Down)
    } else if chars_eq_str(rest, "Left") || chars_eq_str(rest, "left") {
        Some(Key::Left)
    } else if chars_eq_str(rest, "Right") || chars_eq_str(rest, "right") {
        Some(Key::Right)
    } else if chars_eq_str(rest, "Home") || chars_eq_str(rest, "home") {
        Some(Key::Home)
    } else if chars_eq_str(rest, "End") || chars_eq_str(rest, "end") {
        Some(Key::End)
    } else if chars_eq_str(rest, "PageUp") || chars_eq_str(rest, "PgUp") || chars_eq_str(
        rest,
        "pgup",
    ) {
        Some(Key::PageUp)
    } else if chars_eq_str(rest, "PageDown") || chars_eq_str(rest, "PgDn") || chars_eq_str(
        rest,
        "pgdn",
    ) {
        Some(Key::PageDown)
    } else if chars_eq_str(rest, "Insert") || chars_eq_str(rest, "insert") {
        Some(Key::Insert)
    } else if chars_eq_str(rest, "Delete") || chars_eq_str(rest, "delete") || chars_eq_str(
        rest,
        "DC",
    ) || chars_eq_str(rest, "dc") {
        Some(Key::Delete)
    } else if rest.len() >= 2 && (rest[0] == 'F' || rest[0] == 'f') {
        let ghost tail = rest@.drop_first();
        let mut num: u32 = 0;
        let mut k: usize = 1;
        let n = rest.len();
        let mut ok = true;
        while k < n
            invariant
                n == rest@.len(),
                n >= 2,
                tail == rest@.drop_first(),
                1 <= k <= n,
                num <= 9999,
                ok ==> (forall|q: int| 0 <= q < k - 1 ==> '0' <= #[trigger] tail[q] && tail[q]
                    <= '9') && num as int == crate::options::dec_value(
                    tail.subrange(0, k - 1 as int),
                ),
                !ok ==> !(crate::options::is_decimal(tail) && crate::options::dec_value(tail)
                    <= 255),
            decreases n - k,
        {
            let c = rest[k];
            proof {
                assert(tail[k - 1 as int] == rest@[k as int]);
                let pre = tail.subrange(0, k as int);
                assert(pre.drop_last() =~= tail.subrange(0, k - 1 as int));
                assert(pre.last() == tail[k - 1 as int]);
            }
            if '0' <= c && c <= '9' && num < 1000 {
                num = num * 10 + (c as u32 - 48);
            } else {
                proof {
                    if ok && crate::options::is_decimal(tail) {
                        if !('0' <= c && c <= '9') {
                            assert('0' <= tail[k - 1 as int] && tail[k - 1 as int] <= '9');
                            assert(false);
                        } else {
                            let pre = tail.subrange(0, k as int);
                            assert(crate::options::dec_value(pre) == crate::options::dec_value(
                                pre.drop_last(),
                            ) * 10 + (pre.last() as int - '0' as int));
                            crate::options::lemma_dec_value_prefix(tail, k as int);
                            assert(crate::options::dec_value(pre) >= num * 10);
                            assert(crate::options::dec_value(tail) > 255);
                        }
                    }
                }
                ok = false;
            }
            k += 1;
        }
        proof {
            if ok {
                assert(tail.subrange(0, n - 1 as int) =~= tail);
            }
        }
        if ok && num <= 255 {
            Some(Key::F(num as u8))
        } else {
            None
        }
    } else if rest.len() == 1 {
        Some(Key::Char(rest[0]))
    } else {
        None
    }
}

/// The raw terminal bytes one keystroke produces: C0 controls for
/// Ctrl-letters, an ESC prefix for Alt, xterm sequences for the special
/// keys, or the key's UTF-8 itself; only an out-of-range function key has
/// no byte form.
pub open spec fn key_bytes_spec(key: Key, modifiers: Modifiers) -> Option<Seq<u8>> {
    match key {
        Key::Char(c) => {
            if modifiers.ctrl && 97 <= (c as u32) && (c as u32) <= 122 {
                Some(seq![((c as u32) - 96) as u8])
            } else if modifiers.ctrl && 65 <= (c as u32) && (c as u32) <= 90 {
                Some(seq![((c as u32) - 64) as u8])
            } else if !modifiers.ctrl && modifiers.alt {
                Some(seq![0x1Bu8] + utf8_of(c))
            } else {
                Some(utf8_of(c))
            }
        },
        Key::Enter => Some(seq![0x0Du8]),
        Key::Backspace => Some(seq![0x7Fu8]),
        Key::Tab => Some(seq![0x09u8]),
        Key::Escape => Some(seq![0x1Bu8]),
        Key::Space => Some(seq![0x20u8]),
        Key::Up => Some(seq![0x1Bu8, 0x5Bu8, 0x41u8]),
        Key::Down => Some(seq![0x1Bu8, 0x5Bu8, 0x42u8]),
        Key::Right => Some(seq![0x1Bu8, 0x5Bu8, 0x43u8]),
        Key::Left => Some(seq![0x1Bu8, 0x5Bu8, 0x44u8]),
        Key::Home => Some(seq![0x1Bu8, 0x5Bu8, 0x48u8]),
        Key::End => Some(seq![0x1Bu8, 0x5Bu8, 0x46u8]),
        Key::PageUp => Some(seq![0x1Bu8, 0x5Bu8, 0x35u8, 0x7Eu8]),
        Key::PageDown => Some(seq![0x1Bu8, 0x5Bu8, 0x36u8, 0x7Eu8]),
        Key::Insert => Some(seq![0x1Bu8, 0x5Bu8, 0x32u8, 0x7Eu8]),
        Key::Delete => Some(seq![0x1Bu8, 0x5Bu8, 0x33u8, 0x7Eu8]),
        Key::F(n) => {
            if n == 1 {
                Some(seq![0x1Bu8, 0x4Fu8, 0x50u8])
            } else if n == 2 {
                Some(seq![0x1Bu8, 0x4Fu8, 0x51u8])
            } else if n == 3 {
                Some(seq![0x1Bu8, 0x4Fu8, 0x52u8])
            } else if n == 4 {
                Some(seq![0x1Bu8, 0x4Fu8, 0x53u8])
            } else if n == 5 {
                Some(seq![0x1Bu8, 0x5Bu8, 0x31u8, 0x35u8, 0x7Eu8])
            } else if n == 6 {
                Some(seq![0x1Bu8, 0x5Bu8, 0x31u8, 0x37u8, 0x7Eu8])
            } else if n == 7 {
                Some(seq![0x1Bu8, 0x5Bu8, 0x31u8, 0x38u8, 0x7Eu8])
            } else if n == 8 {
                Some(seq![0x1Bu8, 0x5Bu8, 0x31u8, 0x39u8, 0x7Eu8])
            } else if n == 9 {
                Some(seq![0x1Bu8, 0x5Bu8, 0x32u8, 0x30u8, 0x7Eu8])
            } else if n == 10 {
                Some(seq![0x1Bu8, 0x5Bu8, 0x32u8, 0x31u8, 0x7Eu8])
            } else if n == 11 {
                Some(seq![0x1Bu8, 0x5Bu8, 0x32u8, 0x33u8, 0x7Eu8])
            } else if n == 12 {
                Some(seq![0x1Bu8, 0x5Bu8, 0x32u8, 0x34u8, 0x7Eu8])
            } else {
                None
            }
        },
    }
}

/// The raw terminal bytes of one keystroke, exactly as `key_bytes_spec`
/// lays them out.
pub fn key_to_bytes(key: Key, modifiers: Modifiers) -> (r: Option<Vec<u8>>)
    ensures
        match r {
            Some(v) => key_bytes_spec(key, modifiers) == Some(v@),
            None => key_bytes_spec(key, modifiers) is None,
        },
{
    let mut out: Vec<u8> = Vec::new();
    match key {
        Key::Char(c) => {
            if modifiers.ctrl {
                let u = c as u32;
                if 97 <= u && u <= 122 {
                    out.push((u - 96) as u8);
                } else if 65 <= u && u <= 90 {
                    out.push((u - 64) as u8);
                } else {
                    push_char_utf8(&mut out, c);
                }
            } else if modifiers.alt {
                out.push(0x1B);
                push_char_utf8(&mut out, c);
            } else {
                push_char_utf8(&mut out, c);
            }
        },
        Key::Enter => {
            out.push(0x0D);
        },
        Key::Backspace => {
            out.push(0x7F);
        },
        Key::Tab => {
            out.push(0x09);
        },
        Key::Escape => {
            out.push(0x1B);
        },
        Key::Space => {
            out.push(0x20);
        },
        Key::Up => {
            push_csi(&mut out, 0x41);
        },
        Key::Down => {
            push_csi(&mut out, 0x42);
        },
        Key::Right => {
            push_csi(&mut out, 0x43);
        },
        Key::Left => {
            push_csi(&mut out, 0x44);
        },
        Key::Home => {
            push_csi(&mut out, 0x48);
        },
        Key::End => {
            push_csi(&mut out, 0x46);
        },
        Key::PageUp => {
            push_tilde(&mut out, 0x35);
        },
        Key::PageDown => {
            push_tilde(&mut out, 0x36);
        },
        Key::Insert => {
            push_tilde(&mut out, 0x32);
        },
        Key::Delete => {
            push_tilde(&mut out, 0x33);
        },
        Key::F(n) => {
            if n == 1 {
                push_ss3(&mut out, 0x50);
            } else if n == 2 {
                push_ss3(&mut out, 0x51);
            } else if n == 3 {
                push_ss3(&mut out, 0x52);
            } else if n == 4 {
                push_ss3(&mut out, 0x53);
            } else if n == 5 {
                push_fn_tilde(&mut out, 0x31, 0x35);
            } else if n == 6 {
                push_fn_tilde(&mut out, 0x31, 0x37);
            } else if n == 7 {
                push_fn_tilde(&mut out, 0x31, 0x38);
            } else if n == 8 {
                push_fn_tilde(&mut out, 0x31, 0x39);
            } else if n == 9 {
                push_fn_tilde(&mut out, 0x32, 0x30);
            } else if n == 10 {
                push_fn_tilde(&mut out, 0x32, 0x31);
            } else if n == 11 {
                push_fn_tilde(&mut out, 0x32, 0x33);
            } else if n == 12 {
                push_fn_tilde(&mut out, 0x32, 0x34);
            } else {
                return None;
            }
        },
    }
    Some(out)
}

/// The UTF-8 byte sequence of one character.
pub uninterp spec fn utf8_of(c: char) -> Seq<u8>;

/// Relies on char::encode_utf8: appends the character's UTF-8 bytes,
/// which depend on the character alone; a character below 0x80 is one
/// byte holding its code.
#[verifier::external_body]
pub(crate) fn push_char_utf8(out: &mut Vec<u8>, c: char)
    ensures
        final(out)@ == old(out)@ + utf8_of(c),
        final(out)@.len() > old(out)@.len(),
        (c as u32) < 0x80 ==> final(out)@ == old(out)@.push(c as u8),
{
    let mut buf = [0u8; 4];
    let s = c.encode_utf8(&mut buf);
    out.extend_from_slice(s.as_bytes());
}

/// ESC [ x.
fn push_csi(out: &mut Vec<u8>, x: u8)
    ensures
        final(out)@ == old(out)@ + seq![0x1Bu8, 0x5Bu8, x],
{
    out.push(0x1B);
    out.push(0x5B);
    out.push(x);
    proof {
        assert(out@ =~= old(out)@ + seq![0x1Bu8, 0x5Bu8, x]);
    }
}

/// ESC O x.
fn push_ss3(out: &mut Vec<u8>, x: u8)
    ensures
        final(out)@ == old(out)@ + seq![0x1Bu8, 0x4Fu8, x],
{
    out.push(0x1B);
    out.push(0x4F);
    out.push(x);
    proof {
        assert(out@ =~= old(out)@ + seq![0x1Bu8, 0x4Fu8, x]);
    }
}

/// ESC [ x ~.
fn push_tilde(out: &mut Vec<u8>, x: u8)
    ensures
        final(out)@ == old(out)@ + seq![0x1Bu8, 0x5Bu8, x, 0x7Eu8],
{
    out.push(0x1B);
    out.push(0x5B);
    out.push(x);
    out.push(0x7E);
    proof {
        assert(out@ =~= old(out)@ + seq![0x1Bu8, 0x5Bu8, x, 0x7Eu8]);
    }
}

/// ESC [ x y ~.
fn push_fn_tilde(out: &mut Vec<u8>, x: u8, y: u8)
    ensures
        final(out)@ == old(out)@ + seq![0x1Bu8, 0x5Bu8, x, y, 0x7Eu8],
{
    out.push(0x1B);
    out.push(0x5B);
    out.push(x);
    out.push(y);
    out.push(0x7E);
    proof {
        assert(out@ =~= old(out)@ + seq![0x1Bu8, 0x5Bu8, x, y, 0x7Eu8]);
    }
}

} // verus!
