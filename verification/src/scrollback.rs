//! Bounded history of grid rows that have scrolled off the top.

use std::collections::VecDeque;
use vstd::prelude::*;

use crate::cell::Cell;

verus! {

/// Ring buffer of past rows, oldest first, holding at most `max_lines`.
pub struct Scrollback {
    pub lines: VecDeque<Vec<Cell>>,
    pub max_lines: usize,
}

impl Scrollback {
    pub fn new(max_lines: usize) -> (r: Scrollback)
        ensures
            r.lines@.len() == 0,
            r.max_lines == max_lines,
    {
        Scrollback { lines: VecDeque::new(), max_lines }
    }

    /// Append a line; when the buffer is full the oldest line is dropped.
    pub fn push_line(&mut self, line: Vec<Cell>)
        ensures
            old(self).lines@.len() < old(self).max_lines || old(self).lines@.len() == 0
                ==> final(self).lines@ == old(self).lines@.push(line),
            old(self).lines@.len() >= old(self).max_lines && old(self).lines@.len() > 0
                ==> final(self).lines@ == old(self).lines@.drop_first().push(line),
            final(self).max_lines == old(self).max_lines,
    {
        if self.lines.len() >= self.max_lines && self.lines.len() > 0 {
            self.lines.pop_front();
            proof {
                assert(self.lines@ =~= old(self).lines@.drop_first());
            }
        }
        self.lines.push_back(line);
    }

    /// The line `offset` steps back from the most recent one.
    pub fn get_line(&self, offset: usize) -> (r: Option<&Vec<Cell>>)
        ensures
            match r {
                Some(l) => offset < self.lines@.len() && l@ == self.lines@[self.lines@.len() - 1
                    - offset]@,
                None => offset >= self.lines@.len(),
            },
    {
        if offset < self.lines.len() {
            Some(&self.lines[self.lines.len() - 1 - offset])
        } else {
            None
        }
    }

    /// Number of stored lines.
    pub fn len(&self) -> (r: usize)
        ensures
            r == self.lines@.len(),
    {
        self.lines.len()
    }

    /// Whether no lines are stored.
    pub fn is_empty(&self) -> (r: bool)
        ensures
            r == (self.lines@.len() == 0),
    {
        self.lines.len() == 0
    }

    /// Drop all stored lines.
    pub fn clear(&mut self)
        ensures
            final(self).lines@.len() == 0,
            final(self).max_lines == old(self).max_lines,
    {
        self.lines.clear();
    }
}

} // verus!
