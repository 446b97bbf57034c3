//! Configuration: options plus key table, and the line-oriented
//! configuration language (`set-option`, `bind-key`, `unbind-key`).
//! Reading configuration files is the caller's job; the text arrives here
//! as a string.

use vstd::prelude::*;

use crate::chars::{chars_of_str, string_from_chars};
use crate::keys::{binding_index, parse_key, parse_key_spec, KeyBinding, KeyTable};
use crate::options::{set_effect, str_eq, Options};
use crate::WtmuxError;

verus! {


/// Whether a character separates words in a configuration line.
pub open spec fn is_ws(c: char) -> bool {
    c == ' ' || c == '\t'
}

/// The first index at or after `i` that does not hold a separator.
pub open spec fn skip_ws(s: Seq<char>, i: int) -> int
    decreases s.len() - i,
{
    if 0 <= i < s.len() && is_ws(s[i]) {
        skip_ws(s, i + 1)
    } else {
        i
    }
}

/// The first index at or after `i` that holds a separator, or the end.
pub open spec fn skip_word(s: Seq<char>, i: int) -> int
    decreases s.len() - i,
{
    if 0 <= i < s.len() && !is_ws(s[i]) {
        skip_word(s, i + 1)
    } else {
        i
    }
}

/// The first word of a line, leading separators dropped.
pub open spec fn first_word_of(s: Seq<char>) -> Seq<char> {
    let a = skip_ws(s, 0);
    s.subrange(a, skip_word(s, a))
}

/// What follows the first word, its leading separators dropped.
pub open spec fn rest_of(s: Seq<char>) -> Seq<char> {
    let a = skip_ws(s, 0);
    let b = skip_word(s, a);
    s.subrange(skip_ws(s, b), s.len() as int)
}

/// A line with nothing but separators, or whose first word starts a
/// comment.
pub open spec fn blankish(l: Seq<char>) -> bool {
    skip_ws(l, 0) == l.len() || l[skip_ws(l, 0)] == '#'
}

/// The lines of a text, reading from position `i` with `cur` the line
/// begun so far and `acc` the lines already complete.
pub open spec fn lines_acc(s: Seq<char>, i: int, cur: Seq<char>, acc: Seq<Seq<char>>) -> Seq<
    Seq<char>,
>
    decreases s.len() - i,
{
    if 0 <= i < s.len() {
        if s[i] == '\n' {
            lines_acc(s, i + 1, Seq::empty(), acc.push(cur))
        } else {
            lines_acc(s, i + 1, cur.push(s[i]), acc)
        }
    } else {
        acc.push(cur)
    }
}

/// The lines of a text, split at each newline; a text without one is a
/// single line.
pub open spec fn lines_of(s: Seq<char>) -> Seq<Seq<char>> {
    lines_acc(s, 0, Seq::empty(), Seq::empty())
}

/// The lines already complete stand unchanged, in order, at the front of
/// whatever `lines_acc` yields.
proof fn lemma_lines_acc_prefix(s: Seq<char>, i: int, cur: Seq<char>, acc: Seq<Seq<char>>)
    requires
        0 <= i <= s.len(),
    ensures
        lines_acc(s, i, cur, acc).len() > acc.len(),
        forall|j: int| 0 <= j < acc.len() ==> lines_acc(s, i, cur, acc)[j] == acc[j],
    decreases s.len() - i,
{
    if i < s.len() {
        if s[i] == '\n' {
            lemma_lines_acc_prefix(s, i + 1, Seq::empty(), acc.push(cur));
            assert(forall|j: int|
                0 <= j < acc.len() ==> acc.push(cur)[j] == #[trigger] acc[j]);
        } else {
            lemma_lines_acc_prefix(s, i + 1, cur.push(s[i]), acc);
        }
    }
}


/// The effect of a `set-option` argument string on the options: an
/// optional `-g`, then a name and a value, handed to `Options::set`; a
/// missing value changes nothing.
pub open spec fn set_directive_effect(prev: Options, new: Options, args: Seq<char>, ok: bool) -> bool {
    let first = first_word_of(args);
    let (name, value) = if first == "-g"@ {
        (first_word_of(rest_of(args)), rest_of(rest_of(args)))
    } else {
        (first, rest_of(args))
    };
    if value.len() == 0 {
        ok && new == prev
    } else {
        set_effect(prev, new, name, value, ok)
    }
}

/// The effect of a `bind-key` argument string on the binding list: an
/// optional `-n`, then a key and a command; an unparsable key or a
/// missing command changes nothing.
pub open spec fn bind_directive_effect(
    prev: Seq<(KeyBinding, String)>,
    new: Seq<(KeyBinding, String)>,
    args: Seq<char>,
) -> bool {
    let first = first_word_of(args);
    let (key_str, command) = if first == "-n"@ {
        (first_word_of(rest_of(args)), rest_of(rest_of(args)))
    } else {
        (first, rest_of(args))
    };
    if command.len() == 0 {
        new == prev
    } else {
        match parse_key_spec(key_str) {
            Some(b) => new.len() >= 1 && new.last().0 == b && new.last().1@ == command
                && new.drop_last() == (match binding_index(prev, b) {
                Some(i) => prev.remove(i),
                None => prev,
            }),
            None => new == prev,
        }
    }
}

/// The effect of an `unbind-key` argument string on the binding list:
/// the named key's binding, if any, is removed.
pub open spec fn unbind_directive_effect(
    prev: Seq<(KeyBinding, String)>,
    new: Seq<(KeyBinding, String)>,
    args: Seq<char>,
) -> bool {
    new == (match parse_key_spec(first_word_of(args)) {
        Some(b) => match binding_index(prev, b) {
            Some(i) => prev.remove(i),
            None => prev,
        },
        None => prev,
    })
}

/// The server's configuration.
pub struct Config {
    pub options: Options,
    pub key_table: KeyTable,
}

impl Config {
    pub open spec fn inv(&self) -> bool {
        self.key_table.wf()
    }

    /// The defaults: default options and the tmux-compatible key table.
    pub fn default_config(default_shell: &str) -> (r: Config)
        ensures
            r.inv(),
    {
        Config {
            options: Options::new_default(default_shell),
            key_table: KeyTable::default_tmux_bindings(),
        }
    }

    /// Apply a whole configuration text, line by line; empty lines and
    /// `#` comments are skipped, and a bad line never aborts the rest. A
    /// text of nothing but blank and comment lines changes nothing.
    #[verifier::loop_isolation(false)]
    pub fn apply_config_string(&mut self, content: &str) -> (r: Result<(), WtmuxError>)
        requires
            old(self).inv(),
        ensures
            final(self).inv(),
            r is Ok,
            (forall|j: int|
                0 <= j < lines_of(content@).len() ==> blankish(
                    #[trigger] lines_of(content@)[j],
                )) ==> *final(self) == *old(self),
    {
        let ghost all_blank = forall|j: int|
            0 <= j < lines_of(content@).len() ==> blankish(#[trigger] lines_of(content@)[j]);
        let cs = chars_of_str(content);
        let n = cs.len();
        let mut line: Vec<char> = Vec::new();
        let mut i: usize = 0;
        let ghost mut acc: Seq<Seq<char>> = Seq::empty();
        while i < n
            invariant
                self.inv(),
                n == cs@.len(),
                cs@ == content@,
                i <= n,
                lines_acc(content@, i as int, line@, acc) == lines_of(content@),
                all_blank ==> *self == *old(self),
            decreases n - i,
        {
            let c = cs[i];
            if c == '\n' {
                proof {
                    assert(content@[i as int] == '\n');
                    assert(lines_acc(content@, i as int, line@, acc) == lines_acc(
                        content@,
                        i + 1 as int,
                        Seq::<char>::empty(),
                        acc.push(line@),
                    ));
                    lemma_lines_acc_prefix(
                        content@,
                        i + 1 as int,
                        Seq::<char>::empty(),
                        acc.push(line@),
                    );
                    assert(acc.push(line@)[acc.len() as int] == line@);
                    assert(lines_of(content@)[acc.len() as int] == line@);
                }
                self.apply_config_line_chars(&line);
                line = Vec::new();
                proof {
                    acc = acc.push(lines_of(content@)[acc.len() as int]);
                }
            } else {
                line.push(c);
            }
            i += 1;
        }
        proof {
            assert(lines_acc(content@, n as int, line@, acc) == acc.push(line@));
            assert(lines_of(content@)[acc.len() as int] == line@);
        }
        self.apply_config_line_chars(&line);
        Ok(())
    }

    /// Apply one configuration line held as characters: a blank line and
    /// a `#` comment change nothing.
    #[verifier::loop_isolation(false)]
    fn apply_config_line_chars(&mut self, line: &Vec<char>)
        requires
            old(self).inv(),
        ensures
            final(self).inv(),
            blankish(line@) ==> *final(self) == *old(self),
    {
        let mut start: usize = 0;
        let n = line.len();
        while start < n && (line[start] == ' ' || line[start] == '\t')
            invariant
                n == line@.len(),
                start <= n,
                skip_ws(line@, start as int) == skip_ws(line@, 0),
            decreases n - start,
        {
            start += 1;
        }
        proof {
            assert(skip_ws(line@, start as int) == start as int);
        }
        if start >= n {
            return ;
        }
        if line[start] == '#' {
            return ;
        }
        let mut trimmed: Vec<char> = Vec::new();
        let mut i: usize = start;
        while i < n
            invariant
                n == line@.len(),
                start <= i <= n,
            decreases n - i,
        {
            trimmed.push(line[i]);
            i += 1;
        }
        let text = string_from_chars(&trimmed);
        let _ = self.apply_config_line(text.as_str());
    }

    /// Apply one configuration line: the first word picks the directive,
    /// and the rest is its argument string; an unknown directive changes
    /// nothing.
    pub fn apply_config_line(&mut self, line: &str) -> (r: Result<(), WtmuxError>)
        requires
            old(self).inv(),
        ensures
            final(self).inv(),
            r is Ok,
            ({
                let head = first_word_of(line@);
                let rest = rest_of(line@);
                if head == "set-option"@ || head == "set"@ {
                    final(self).key_table == old(self).key_table && exists|ok: bool|
                        set_directive_effect(old(self).options, final(self).options, rest, ok)
                } else if head == "bind-key"@ || head == "bind"@ {
                    final(self).options == old(self).options && final(self).key_table.prefix
                        == old(self).key_table.prefix && bind_directive_effect(
                        old(self).key_table.bindings@,
                        final(self).key_table.bindings@,
                        rest,
                    )
                } else if head == "unbind-key"@ || head == "unbind"@ {
                    final(self).options == old(self).options && final(self).key_table.prefix
                        == old(self).key_table.prefix && unbind_directive_effect(
                        old(self).key_table.bindings@,
                        final(self).key_table.bindings@,
                        rest,
                    )
                } else {
                    *final(self) == *old(self)
                }
            }),
    {
        let (head, rest) = split_first_word(line);
        if str_eq(head.as_str(), "set-option") || str_eq(head.as_str(), "set") {
            let r = parse_set_option(&mut self.options, rest.as_str());
            proof {
                assert(set_directive_effect(
                    old(self).options,
                    self.options,
                    rest_of(line@),
                    r is Ok,
                ));
                assert(exists|ok: bool|
                    set_directive_effect(
                        old(self).options,
                        self.options,
                        rest_of(line@),
                        ok,
                    ));
            }
            Ok(())
        } else if str_eq(head.as_str(), "bind-key") || str_eq(head.as_str(), "bind") {
            parse_bind_key(&mut self.key_table, rest.as_str())
        } else if str_eq(head.as_str(), "unbind-key") || str_eq(head.as_str(), "unbind") {
            parse_unbind_key(&mut self.key_table, rest.as_str())
        } else {
            // Unknown directives (including file inclusion, which needs
            // the file system) are left to the caller.
            Ok(())
        }
    }
}

/// Split a line into its first word and the rest, both trimmed.
#[verifier::loop_isolation(false)]
fn split_first_word(s: &str) -> (r: (String, String))
    ensures
        r.0@ == first_word_of(s@),
        r.1@ == rest_of(s@),
{
    let cs = chars_of_str(s);
    let n = cs.len();
    let mut i: usize = 0;
    while i < n && (cs[i] == ' ' || cs[i] == '\t')
        invariant
            n == cs@.len(),
            cs@ == s@,
            i <= n,
            skip_ws(s@, i as int) == skip_ws(s@, 0),
        decreases n - i,
    {
        i += 1;
    }
    let a = i;
    proof {
        assert(skip_ws(s@, a as int) == a as int);
    }
    let mut head: Vec<char> = Vec::new();
    while i < n && cs[i] != ' ' && cs[i] != '\t'
        invariant
            n == cs@.len(),
            cs@ == s@,
            a <= i <= n,
            skip_word(s@, i as int) == skip_word(s@, a as int),
            head@ =~= s@.subrange(a as int, i as int),
        decreases n - i,
    {
        head.push(cs[i]);
        proof {
            assert(head@ =~= s@.subrange(a as int, i + 1 as int));
        }
        i += 1;
    }
    let b = i;
    proof {
        assert(skip_word(s@, b as int) == b as int);
        assert(head@ == first_word_of(s@));
    }
    while i < n && (cs[i] == ' ' || cs[i] == '\t')
        invariant
            n == cs@.len(),
            cs@ == s@,
            b <= i <= n,
            skip_ws(s@, i as int) == skip_ws(s@, b as int),
        decreases n - i,
    {
        i += 1;
    }
    let c = i;
    proof {
        assert(skip_ws(s@, c as int) == c as int);
    }
    let mut rest: Vec<char> = Vec::new();
    while i < n
        invariant
            n == cs@.len(),
            cs@ == s@,
            c <= i <= n,
            rest@ =~= s@.subrange(c as int, i as int),
        decreases n - i,
    {
        rest.push(cs[i]);
        proof {
            assert(rest@ =~= s@.subrange(c as int, i + 1 as int));
        }
        i += 1;
    }
    proof {
        assert(rest@ == rest_of(s@));
    }
    (string_from_chars(&head), string_from_chars(&rest))
}

/// Apply a `set-option` argument string: an optional `-g`, an option name
/// and its value.
pub fn parse_set_option(options: &mut Options, args: &str) -> (r: Result<(), WtmuxError>)
    ensures
        set_directive_effect(*old(options), *final(options), args@, r is Ok),
{
    proof {
        reveal_strlit("-g");
    }
    let (first, rest) = split_first_word(args);
    let (name, value) = if str_eq(first.as_str(), "-g") {
        split_first_word(rest.as_str())
    } else {
        (first, rest)
    };
    if value.as_str().unicode_len() == 0 {
        return Ok(());
    }
    match options.set(name.as_str(), value.as_str()) {
        Ok(_) => Ok(()),
        Err(e) => Err(WtmuxError::Other(e)),
    }
}

/// Apply a `bind-key` argument string: an optional `-n`, a key and a
/// command.
pub fn parse_bind_key(table: &mut KeyTable, args: &str) -> (r: Result<(), WtmuxError>)
    requires
        old(table).wf(),
    ensures
        final(table).wf(),
        final(table).prefix == old(table).prefix,
        r is Ok,
        bind_directive_effect(old(table).bindings@, final(table).bindings@, args@),
{
    proof {
        reveal_strlit("-n");
    }
    let (first, rest0) = split_first_word(args);
    let (key_str, command) = if str_eq(first.as_str(), "-n") {
        split_first_word(rest0.as_str())
    } else {
        (first, rest0)
    };
    if command.as_str().unicode_len() == 0 {
        return Ok(());
    }
    match parse_key(key_str.as_str()) {
        Some(binding) => {
            table.bind(binding.key, binding.modifiers, command.as_str());
            Ok(())
        },
        None => Ok(()),
    }
}

/// Apply an `unbind-key` argument string: the named key loses its binding.
pub fn parse_unbind_key(table: &mut KeyTable, args: &str) -> (r: Result<(), WtmuxError>)
    requires
        old(table).wf(),
    ensures
        final(table).wf(),
        final(table).prefix == old(table).prefix,
        r is Ok,
        unbind_directive_effect(old(table).bindings@, final(table).bindings@, args@),
{
    let (key_str, _) = split_first_word(args);
    match parse_key(key_str.as_str()) {
        Some(binding) => {
            table.unbind(binding.key, binding.modifiers);
            Ok(())
        },
        None => Ok(()),
    }
}

} // verus!
