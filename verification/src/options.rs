//! Server options: named settings with tmux-compatible defaults.

use vstd::prelude::*;

use crate::chars::{chars_of_str, lower_chars_of, string_from_chars};

verus! {

/// The option set, with one field per recognised option.
pub struct Options {
    pub status: bool,
    pub status_left: String,
    pub status_right: String,
    pub status_interval: u64,
    pub base_index: usize,
    pub renumber_windows: bool,
    pub automatic_rename: bool,
    pub default_shell: String,
    pub default_terminal: String,
    pub escape_time: u64,
    pub history_limit: usize,
    pub mouse: bool,
    pub prefix: String,
    pub display_time: u64,
    pub display_panes_time: u64,
    pub pane_border_style: String,
    pub pane_active_border_style: String,
}


/// The exact effect of `Options::set`: how the options after the call
/// (`new`) relate to those before (`prev`) for a given name and value,
/// and whether the call succeeds.
pub open spec fn set_effect(prev: Options, new: Options, name: Seq<char>, value: Seq<char>, ok: bool) -> bool {
    &&& (name == "status"@) ==> (match bool_spec(value) {
                Some(b) => ok && new == (Options { status: b, ..prev }),
                None => !ok && new == prev,
            })
    &&& (name == "status-left"@) ==> (ok && new.status_left@ == unquote_spec(value) && new
                == (Options { status_left: new.status_left, ..prev }))
    &&& (name == "status-right"@) ==> (ok && new.status_right@ == unquote_spec(value) && new
                == (Options { status_right: new.status_right, ..prev }))
    &&& (name == "status-interval"@) ==> (if is_decimal(value) && dec_value(value) <= u64::MAX {
                ok && new == (Options {
                    status_interval: dec_value(value) as u64,
                    ..prev
                })
            } else {
                !ok && new == prev
            })
    &&& (name == "base-index"@) ==> (if is_decimal(value) && dec_value(value) <= u64::MAX {
                ok && (dec_value(value) <= usize::MAX ==> new == (Options {
                    base_index: dec_value(value) as usize,
                    ..prev
                })) && new == (Options { base_index: new.base_index, ..prev })
            } else {
                !ok && new == prev
            })
    &&& (name == "renumber-windows"@) ==> (match bool_spec(value) {
                Some(b) => ok && new == (Options { renumber_windows: b, ..prev }),
                None => !ok && new == prev,
            })
    &&& (name == "automatic-rename"@) ==> (match bool_spec(value) {
                Some(b) => ok && new == (Options { automatic_rename: b, ..prev }),
                None => !ok && new == prev,
            })
    &&& (name == "default-shell"@ || name == "default-command"@) ==> (ok && new.default_shell@ == unquote_spec(value) && new
                == (Options { default_shell: new.default_shell, ..prev }))
    &&& (name == "default-terminal"@) ==> (ok && new.default_terminal@ == unquote_spec(value) && new
                == (Options { default_terminal: new.default_terminal, ..prev }))
    &&& (name == "escape-time"@) ==> (if is_decimal(value) && dec_value(value) <= u64::MAX {
                ok && new == (Options {
                    escape_time: dec_value(value) as u64,
                    ..prev
                })
            } else {
                !ok && new == prev
            })
    &&& (name == "history-limit"@) ==> (if is_decimal(value) && dec_value(value) <= u64::MAX {
                ok && (dec_value(value) <= usize::MAX ==> new == (Options {
                    history_limit: dec_value(value) as usize,
                    ..prev
                })) && new == (Options { history_limit: new.history_limit, ..prev })
            } else {
                !ok && new == prev
            })
    &&& (name == "mouse"@) ==> (match bool_spec(value) {
                Some(b) => ok && new == (Options { mouse: b, ..prev }),
                None => !ok && new == prev,
            })
    &&& (name == "prefix"@) ==> (ok && new.prefix@ == value && new == (Options {
                prefix: new.prefix,
                ..prev
            }))
    &&& (name == "display-time"@) ==> (if is_decimal(value) && dec_value(value) <= u64::MAX {
                ok && new == (Options {
                    display_time: dec_value(value) as u64,
                    ..prev
                })
            } else {
                !ok && new == prev
            })
    &&& (name == "display-panes-time"@) ==> (if is_decimal(value) && dec_value(value) <= u64::MAX {
                ok && new == (Options {
                    display_panes_time: dec_value(value) as u64,
                    ..prev
                })
            } else {
                !ok && new == prev
            })
    &&& (name == "pane-border-style"@) ==> (ok && new.pane_border_style@ == unquote_spec(value) && new
                == (Options { pane_border_style: new.pane_border_style, ..prev }))
    &&& (name == "pane-active-border-style"@) ==> (ok && new.pane_active_border_style@ == unquote_spec(value) && new
                == (Options { pane_active_border_style: new.pane_active_border_style, ..prev }))
    &&& !(name == "status"@ || name == "status-left"@ || name == "status-right"@ || name == "status-interval"@ || name == "base-index"@ || name == "renumber-windows"@ || name == "automatic-rename"@ || name == "default-shell"@ || name == "default-command"@ || name == "default-terminal"@ || name == "escape-time"@ || name == "history-limit"@ || name == "mouse"@ || name == "prefix"@ || name == "display-time"@ || name == "display-panes-time"@ || name == "pane-border-style"@ || name == "pane-active-border-style"@) ==> !ok && new == prev
}

impl Options {
    /// The defaults: status bar on, tmux-style formats, Ctrl-B prefix.
    pub fn new_default(default_shell: &str) -> (r: Options)
        ensures
            r.status,
            r.status_interval == 1,
            r.base_index == 0,
            !r.renumber_windows,
            r.automatic_rename,
            r.escape_time == 500,
            r.history_limit == 2000,
            !r.mouse,
            r.display_time == 750,
            r.display_panes_time == 1000,
    {
        Options {
            status: true,
            status_left: copy_str("[#{session_name}] "),
            status_right: copy_str(" %H:%M %Y-%m-%d"),
            status_interval: 1,
            base_index: 0,
            renumber_windows: false,
            automatic_rename: true,
            default_shell: copy_str(default_shell),
            default_terminal: copy_str("xterm-256color"),
            escape_time: 500,
            history_limit: 2000,
            mouse: false,
            prefix: copy_str("C-b"),
            display_time: 750,
            display_panes_time: 1000,
            pane_border_style: copy_str("default"),
            pane_active_border_style: copy_str("fg=green"),
        }
    }

    /// Set an option by name: a known name with a well-formed value
    /// updates exactly that field — and nothing else — and succeeds;
    /// everything else is an error that leaves the options untouched.
    pub fn set(&mut self, name: &str, value: &str) -> (r: Result<(), String>)
        ensures
            (name@ == "status"@) ==> (match bool_spec(value@) {
                Some(b) => r is Ok && *final(self) == (Options { status: b, ..*old(self) }),
                None => r is Err && *final(self) == *old(self),
            }),
            (name@ == "status-left"@) ==> (r is Ok && final(self).status_left@ == unquote_spec(value@) && *final(self)
                == (Options { status_left: final(self).status_left, ..*old(self) })),
            (name@ == "status-right"@) ==> (r is Ok && final(self).status_right@ == unquote_spec(value@) && *final(self)
                == (Options { status_right: final(self).status_right, ..*old(self) })),
            (name@ == "status-interval"@) ==> (if is_decimal(value@) && dec_value(value@) <= u64::MAX {
                r is Ok && *final(self) == (Options {
                    status_interval: dec_value(value@) as u64,
                    ..*old(self)
                })
            } else {
                r is Err && *final(self) == *old(self)
            }),
            (name@ == "base-index"@) ==> (if is_decimal(value@) && dec_value(value@) <= u64::MAX {
                r is Ok && (dec_value(value@) <= usize::MAX ==> *final(self) == (Options {
                    base_index: dec_value(value@) as usize,
                    ..*old(self)
                })) && *final(self) == (Options { base_index: final(self).base_index, ..*old(self) })
            } else {
                r is Err && *final(self) == *old(self)
            }),
            (name@ == "renumber-windows"@) ==> (match bool_spec(value@) {
                Some(b) => r is Ok && *final(self) == (Options { renumber_windows: b, ..*old(self) }),
                None => r is Err && *final(self) == *old(self),
            }),
            (name@ == "automatic-rename"@) ==> (match bool_spec(value@) {
                Some(b) => r is Ok && *final(self) == (Options { automatic_rename: b, ..*old(self) }),
                None => r is Err && *final(self) == *old(self),
            }),
            (name@ == "default-shell"@ || name@ == "default-command"@) ==> (r is Ok && final(self).default_shell@ == unquote_spec(value@) && *final(self)
                == (Options { default_shell: final(self).default_shell, ..*old(self) })),
            (name@ == "default-terminal"@) ==> (r is Ok && final(self).default_terminal@ == unquote_spec(value@) && *final(self)
                == (Options { default_terminal: final(self).default_terminal, ..*old(self) })),
            (name@ == "escape-time"@) ==> (if is_decimal(value@) && dec_value(value@) <= u64::MAX {
                r is Ok && *final(self) == (Options {
                    escape_time: dec_value(value@) as u64,
                    ..*old(self)
                })
            } else {
                r is Err && *final(self) == *old(self)
            }),
            (name@ == "history-limit"@) ==> (if is_decimal(value@) && dec_value(value@) <= u64::MAX {
                r is Ok && (dec_value(value@) <= usize::MAX ==> *final(self) == (Options {
                    history_limit: dec_value(value@) as usize,
                    ..*old(self)
                })) && *final(self) == (Options { history_limit: final(self).history_limit, ..*old(self) })
            } else {
                r is Err && *final(self) == *old(self)
            }),
            (name@ == "mouse"@) ==> (match bool_spec(value@) {
                Some(b) => r is Ok && *final(self) == (Options { mouse: b, ..*old(self) }),
                None => r is Err && *final(self) == *old(self),
            }),
            (name@ == "prefix"@) ==> (r is Ok && final(self).prefix@ == value@ && *final(self) == (Options {
                prefix: final(self).prefix,
                ..*old(self)
            })),
            (name@ == "display-time"@) ==> (if is_decimal(value@) && dec_value(value@) <= u64::MAX {
                r is Ok && *final(self) == (Options {
                    display_time: dec_value(value@) as u64,
                    ..*old(self)
                })
            } else {
                r is Err && *final(self) == *old(self)
            }),
            (name@ == "display-panes-time"@) ==> (if is_decimal(value@) && dec_value(value@) <= u64::MAX {
                r is Ok && *final(self) == (Options {
                    display_panes_time: dec_value(value@) as u64,
                    ..*old(self)
                })
            } else {
                r is Err && *final(self) == *old(self)
            }),
            (name@ == "pane-border-style"@) ==> (r is Ok && final(self).pane_border_style@ == unquote_spec(value@) && *final(self)
                == (Options { pane_border_style: final(self).pane_border_style, ..*old(self) })),
            (name@ == "pane-active-border-style"@) ==> (r is Ok && final(self).pane_active_border_style@ == unquote_spec(value@) && *final(self)
                == (Options { pane_active_border_style: final(self).pane_active_border_style, ..*old(self) })),
            !(name@ == "status"@ || name@ == "status-left"@ || name@ == "status-right"@ || name@ == "status-interval"@ || name@ == "base-index"@ || name@ == "renumber-windows"@ || name@ == "automatic-rename"@ || name@ == "default-shell"@ || name@ == "default-command"@ || name@ == "default-terminal"@ || name@ == "escape-time"@ || name@ == "history-limit"@ || name@ == "mouse"@ || name@ == "prefix"@ || name@ == "display-time"@ || name@ == "display-panes-time"@ || name@ == "pane-border-style"@ || name@ == "pane-active-border-style"@) ==> r is Err && *final(self) == *old(self),
            set_effect(*old(self), *final(self), name@, value@, r is Ok),
    {
        proof {
            reveal_strlit("status");
            assert("status"@.len() == 6);
            reveal_strlit("status-left");
            assert("status-left"@.len() == 11);
            reveal_strlit("status-right");
            assert("status-right"@.len() == 12);
            reveal_strlit("status-interval");
            assert("status-interval"@.len() == 15);
            reveal_strlit("base-index");
            assert("base-index"@.len() == 10);
            reveal_strlit("renumber-windows");
            assert("renumber-windows"@.len() == 16);
            reveal_strlit("automatic-rename");
            assert("automatic-rename"@.len() == 16);
            reveal_strlit("default-shell");
            assert("default-shell"@.len() == 13);
            reveal_strlit("default-command");
            assert("default-command"@.len() == 15);
            reveal_strlit("default-terminal");
            assert("default-terminal"@.len() == 16);
            reveal_strlit("escape-time");
            assert("escape-time"@.len() == 11);
            reveal_strlit("history-limit");
            assert("history-limit"@.len() == 13);
            reveal_strlit("mouse");
            assert("mouse"@.len() == 5);
            reveal_strlit("prefix");
            assert("prefix"@.len() == 6);
            reveal_strlit("display-time");
            assert("display-time"@.len() == 12);
            reveal_strlit("display-panes-time");
            assert("display-panes-time"@.len() == 18);
            reveal_strlit("pane-border-style");
            assert("pane-border-style"@.len() == 17);
            reveal_strlit("pane-active-border-style");
            assert("pane-active-border-style"@.len() == 24);
            assert("status"@[0] == 's');
            assert("prefix"@[0] == 'p');
            assert("status"@ != "prefix"@);
            assert("status-left"@[0] == 's');
            assert("escape-time"@[0] == 'e');
            assert("status-left"@ != "escape-time"@);
            assert("status-right"@[0] == 's');
            assert("display-time"@[0] == 'd');
            assert("status-right"@ != "display-time"@);
            assert("default-shell"@[0] == 'd');
            assert("history-limit"@[0] == 'h');
            assert("default-shell"@ != "history-limit"@);
            assert("status-interval"@[0] == 's');
            assert("default-command"@[0] == 'd');
            assert("status-interval"@ != "default-command"@);
            assert("renumber-windows"@[0] == 'r');
            assert("automatic-rename"@[0] == 'a');
            assert("renumber-windows"@ != "automatic-rename"@);
            assert("renumber-windows"@[0] == 'r');
            assert("default-terminal"@[0] == 'd');
            assert("renumber-windows"@ != "default-terminal"@);
            assert("automatic-rename"@[0] == 'a');
            assert("default-terminal"@[0] == 'd');
            assert("automatic-rename"@ != "default-terminal"@);
        }
        if str_eq(name, "status") {
            match parse_bool(value) {
                Some(b) => {
                    self.status = b;
                    Ok(())
                },
                None => Err(copy_str("invalid boolean value")),
            }
        } else if str_eq(name, "status-left") {
            self.status_left = unquote(value);
            Ok(())
        } else if str_eq(name, "status-right") {
            self.status_right = unquote(value);
            Ok(())
        } else if str_eq(name, "status-interval") {
            match parse_u64(value) {
                Some(v) => {
                    self.status_interval = v;
                    Ok(())
                },
                None => Err(copy_str("invalid number")),
            }
        } else if str_eq(name, "base-index") {
            match parse_u64(value) {
                Some(v) => {
                    self.base_index = v as usize;
                    Ok(())
                },
                None => Err(copy_str("invalid number")),
            }
        } else if str_eq(name, "renumber-windows") {
            match parse_bool(value) {
                Some(b) => {
                    self.renumber_windows = b;
                    Ok(())
                },
                None => Err(copy_str("invalid boolean value")),
            }
        } else if str_eq(name, "automatic-rename") {
            match parse_bool(value) {
                Some(b) => {
                    self.automatic_rename = b;
                    Ok(())
                },
                None => Err(copy_str("invalid boolean value")),
            }
        } else if str_eq(name, "default-shell") || str_eq(name, "default-command") {
            self.default_shell = unquote(value);
            Ok(())
        } else if str_eq(name, "default-terminal") {
            self.default_terminal = unquote(value);
            Ok(())
        } else if str_eq(name, "escape-time") {
            match parse_u64(value) {
                Some(v) => {
                    self.escape_time = v;
                    Ok(())
                },
                None => Err(copy_str("invalid number")),
            }
        } else if str_eq(name, "history-limit") {
            match parse_u64(value) {
                Some(v) => {
                    self.history_limit = v as usize;
                    Ok(())
                },
                None => Err(copy_str("invalid number")),
            }
        } else if str_eq(name, "mouse") {
            match parse_bool(value) {
                Some(b) => {
                    self.mouse = b;
                    Ok(())
                },
                None => Err(copy_str("invalid boolean value")),
            }
        } else if str_eq(name, "prefix") {
            self.prefix = copy_str(value);
            Ok(())
        } else if str_eq(name, "display-time") {
            match parse_u64(value) {
                Some(v) => {
                    self.display_time = v;
                    Ok(())
                },
                None => Err(copy_str("invalid number")),
            }
        } else if str_eq(name, "display-panes-time") {
            match parse_u64(value) {
                Some(v) => {
                    self.display_panes_time = v;
                    Ok(())
                },
                None => Err(copy_str("invalid number")),
            }
        } else if str_eq(name, "pane-border-style") {
            self.pane_border_style = unquote(value);
            Ok(())
        } else if str_eq(name, "pane-active-border-style") {
            self.pane_active_border_style = unquote(value);
            Ok(())
        } else {
            Err(copy_str("unknown option"))
        }
    }

    /// Read an option's value by name: the recognised names return their
    /// field's text, all others return nothing.
    pub fn get(&self, name: &str) -> (r: Option<String>)
        ensures
            name@ == "status"@ ==> (r matches Some(v) && (self.status ==> v@ == "on"@) && (
            !self.status ==> v@ == "off"@)),
            name@ == "status-left"@ ==> (r matches Some(v) && v@ == self.status_left@),
            name@ == "status-right"@ ==> (r matches Some(v) && v@ == self.status_right@),
            name@ == "default-shell"@ ==> (r matches Some(v) && v@ == self.default_shell@),
            name@ == "default-terminal"@ ==> (r matches Some(v) && v@
                == self.default_terminal@),
            name@ == "mouse"@ ==> (r matches Some(v) && (self.mouse ==> v@ == "on"@) && (
            !self.mouse ==> v@ == "off"@)),
            name@ == "prefix"@ ==> (r matches Some(v) && v@ == self.prefix@),
            !(name@ == "status"@ || name@ == "status-left"@ || name@ == "status-right"@ || name@
                == "default-shell"@ || name@ == "default-terminal"@ || name@ == "mouse"@ || name@
                == "prefix"@) ==> r is None,
    {
        proof {
            reveal_strlit("status");
            assert("status"@.len() == 6);
            reveal_strlit("status-left");
            assert("status-left"@.len() == 11);
            reveal_strlit("status-right");
            assert("status-right"@.len() == 12);
            reveal_strlit("default-shell");
            assert("default-shell"@.len() == 13);
            reveal_strlit("default-terminal");
            assert("default-terminal"@.len() == 16);
            reveal_strlit("mouse");
            assert("mouse"@.len() == 5);
            reveal_strlit("prefix");
            assert("prefix"@.len() == 6);
            assert("status"@[0] == 's');
            assert("prefix"@[0] == 'p');
            assert("status"@ != "prefix"@);
        }
        if str_eq(name, "status") {
            Some(bool_str(self.status))
        } else if str_eq(name, "status-left") {
            Some(self.status_left.clone())
        } else if str_eq(name, "status-right") {
            Some(self.status_right.clone())
        } else if str_eq(name, "default-shell") {
            Some(self.default_shell.clone())
        } else if str_eq(name, "default-terminal") {
            Some(self.default_terminal.clone())
        } else if str_eq(name, "mouse") {
            Some(bool_str(self.mouse))
        } else if str_eq(name, "prefix") {
            Some(self.prefix.clone())
        } else {
            None
        }
    }
}


/// The boolean a configuration word denotes, if any: `on`, `true`, `yes`
/// and `1` are true; `off`, `false`, `no` and `0` are false, all
/// case-insensitively.
pub open spec fn bool_spec(s: Seq<char>) -> Option<bool> {
    let l = crate::chars::lower_of(s);
    if l == "on"@ || l == "true"@ || l == "yes"@ || l == "1"@ {
        Some(true)
    } else if l == "off"@ || l == "false"@ || l == "no"@ || l == "0"@ {
        Some(false)
    } else {
        None
    }
}

/// Whether every character is a decimal digit (and there is at least one).
pub open spec fn is_decimal(s: Seq<char>) -> bool {
    s.len() > 0 && forall|i: int| 0 <= i < s.len() ==> '0' <= #[trigger] s[i] && s[i] <= '9'
}

/// The number a digit string denotes.
pub open spec fn dec_value(s: Seq<char>) -> int
    decreases s.len(),
{
    if s.len() == 0 {
        0
    } else {
        dec_value(s.drop_last()) * 10 + (s.last() as int - '0' as int)
    }
}

/// A digit string's value only grows as digits are appended.
pub proof fn lemma_dec_value_prefix(s: Seq<char>, i: int)
    requires
        0 <= i <= s.len(),
        forall|k: int| 0 <= k < s.len() ==> '0' <= #[trigger] s[k] && s[k] <= '9',
    ensures
        dec_value(s) >= dec_value(s.subrange(0, i)),
        dec_value(s) >= 0,
    decreases s.len() - i,
{
    if i == s.len() {
        assert(s.subrange(0, i) =~= s);
        lemma_dec_value_nonneg(s);
    } else {
        lemma_dec_value_prefix(s, i + 1);
        let pre = s.subrange(0, i + 1);
        assert(pre.drop_last() =~= s.subrange(0, i));
        assert(pre.last() == s[i]);
        lemma_dec_value_nonneg(s.subrange(0, i));
        assert(dec_value(pre) == dec_value(s.subrange(0, i)) * 10 + (s[i] as int - '0' as int));
        assert(dec_value(s.subrange(0, i)) * 10 >= dec_value(s.subrange(0, i)))
            by (nonlinear_arith)
            requires
                dec_value(s.subrange(0, i)) >= 0,
        ;
    }
}

proof fn lemma_dec_value_nonneg(s: Seq<char>)
    requires
        forall|k: int| 0 <= k < s.len() ==> '0' <= #[trigger] s[k] && s[k] <= '9',
    ensures
        dec_value(s) >= 0,
    decreases s.len(),
{
    if s.len() > 0 {
        assert forall|k: int| 0 <= k < s.drop_last().len() implies '0' <= #[trigger] s.drop_last()[k]
            && s.drop_last()[k] <= '9' by {
            assert(s.drop_last()[k] == s[k]);
        }
        lemma_dec_value_nonneg(s.drop_last());
        assert(dec_value(s.drop_last()) * 10 >= 0) by (nonlinear_arith)
            requires
                dec_value(s.drop_last()) >= 0,
        ;
    }
}

/// The string without one level of matching single or double quotes.
pub open spec fn unquote_spec(s: Seq<char>) -> Seq<char> {
    if s.len() >= 2 && ((s[0] == '"' && s[s.len() - 1] == '"') || (s[0] == '\'' && s[s.len() - 1]
        == '\'')) {
        s.subrange(1, s.len() - 1)
    } else {
        s
    }
}

/// Copy a string slice into an owned string.
pub fn copy_str(s: &str) -> (r: String)
    ensures
        r@ == s@,
{
    string_from_chars(&chars_of_str(s))
}

/// Character-wise equality of a slice and a literal.
pub fn str_eq(a: &str, b: &str) -> (r: bool)
    ensures
        r == (a@ == b@),
{
    let ca = chars_of_str(a);
    let cb = chars_of_str(b);
    if ca.len() != cb.len() {
        return false;
    }
    let n = ca.len();
    let mut i: usize = 0;
    while i < n
        invariant
            n == ca@.len(),
            n == cb@.len(),
            ca@ == a@,
            cb@ == b@,
            i <= n,
            forall|q: int| 0 <= q < i ==> ca@[q] == cb@[q],
        decreases n - i,
    {
        if ca[i] != cb[i] {
            return false;
        }
        i += 1;
    }
    proof {
        assert(a@ =~= b@);
    }
    true
}

/// `on`, `true`, `yes` and `1` are true; `off`, `false`, `no` and `0` are
/// false (case-insensitively); anything else is unrecognised.
pub fn parse_bool(s: &str) -> (r: Option<bool>)
    ensures
        r == bool_spec(s@),
{
    let lowered = string_from_chars(&lower_chars_of(s));
    let l = lowered.as_str();
    if str_eq(l, "on") || str_eq(l, "true") || str_eq(l, "yes") || str_eq(l, "1") {
        Some(true)
    } else if str_eq(l, "off") || str_eq(l, "false") || str_eq(l, "no") || str_eq(l, "0") {
        Some(false)
    } else {
        None
    }
}

/// A decimal number: `Some` exactly for an all-digit string whose value
/// fits, carrying that value.
#[verifier::loop_isolation(false)]
pub fn parse_u64(s: &str) -> (r: Option<u64>)
    ensures
        r matches Some(v) ==> is_decimal(s@) && v as int == dec_value(s@) && dec_value(s@)
            <= u64::MAX,
        r is None ==> !is_decimal(s@) || dec_value(s@) > u64::MAX,
{
    let cs = chars_of_str(s);
    let n = cs.len();
    if n == 0 {
        return None;
    }
    let mut v: u64 = 0;
    let mut i: usize = 0;
    while i < n
        invariant
            n == cs@.len(),
            n >= 1,
            i <= n,
            forall|k: int| 0 <= k < i ==> '0' <= #[trigger] cs@[k] && cs@[k] <= '9',
            v as int == dec_value(cs@.subrange(0, i as int)),
        decreases n - i,
    {
        let c = cs[i];
        if c < '0' || c > '9' {
            return None;
        }
        let d = (c as u32 - 48) as u64;
        proof {
            let pre = cs@.subrange(0, i + 1 as int);
            assert(pre.drop_last() =~= cs@.subrange(0, i as int));
            assert(pre.last() == cs@[i as int]);
        }
        if v > (u64::MAX - d) / 10 {
            proof {
                if is_decimal(cs@) {
                    let pre = cs@.subrange(0, i + 1 as int);
                    lemma_dec_value_prefix(cs@, i + 1);
                    assert(dec_value(pre) == (v as int) * 10 + d);
                    vstd::arithmetic::div_mod::lemma_fundamental_div_mod(
                        (u64::MAX - d) as int,
                        10,
                    );
                    assert((v as int) * 10 >= (((u64::MAX - d) as int) / 10 + 1) * 10)
                        by (nonlinear_arith)
                        requires
                            v as int >= ((u64::MAX - d) as int) / 10 + 1,
                    ;
                    assert(dec_value(cs@) > u64::MAX);
                }
            }
            return None;
        }
        v = v * 10 + d;
        i += 1;
    }
    proof {
        assert(cs@.subrange(0, n as int) =~= cs@);
    }
    Some(v)
}

/// Strip one level of matching single or double quotes.
#[verifier::loop_isolation(false)]
pub fn unquote(s: &str) -> (r: String)
    ensures
        r@ == unquote_spec(s@),
{
    let cs = chars_of_str(s);
    let n = cs.len();
    if n >= 2 && ((cs[0] == '"' && cs[n - 1] == '"') || (cs[0] == '\'' && cs[n - 1] == '\'')) {
        let mut out: Vec<char> = Vec::new();
        let mut i: usize = 1;
        while i < n - 1
            invariant
                n == cs@.len(),
                n >= 2,
                1 <= i <= n - 1,
                out@ =~= cs@.subrange(1, i as int),
            decreases n - 1 - i,
        {
            out.push(cs[i]);
            proof {
                assert(out@ =~= cs@.subrange(1, i + 1 as int));
            }
            i += 1;
        }
        string_from_chars(&out)
    } else {
        copy_str(s)
    }
}

/// The option text of a boolean: `on` or `off`.
pub fn bool_str(b: bool) -> (r: String)
    ensures
        b ==> r@ == "on"@,
        !b ==> r@ == "off"@,
{
    if b {
        copy_str("on")
    } else {
        copy_str("off")
    }
}

} // verus!
