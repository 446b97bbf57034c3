//! The server-wide stack of copied text: bounded, oldest entries dropped.

use vstd::prelude::*;

verus! {

/// Bounded stack of paste buffers; pushing onto a full stack drops the
/// oldest entry.
pub struct PasteBuffer {
    pub buffers: Vec<String>,
    pub max_buffers: usize,
}

impl PasteBuffer {
    pub fn new(max_buffers: usize) -> (r: PasteBuffer)
        ensures
            r.buffers@.len() == 0,
            r.max_buffers == max_buffers,
    {
        PasteBuffer { buffers: Vec::new(), max_buffers }
    }

    /// Push text on top; a full stack loses its bottom entry.
    pub fn push(&mut self, text: String)
        ensures
            final(self).max_buffers == old(self).max_buffers,
            old(self).buffers@.len() < old(self).max_buffers || old(self).buffers@.len() == 0
                ==> final(self).buffers@ == old(self).buffers@.push(text),
            old(self).buffers@.len() >= old(self).max_buffers && old(self).buffers@.len() > 0
                ==> final(self).buffers@ == old(self).buffers@.drop_first().push(text),
    {
        if self.buffers.len() >= self.max_buffers && self.buffers.len() > 0 {
            self.buffers.remove(0);
            proof {
                assert(self.buffers@ =~= old(self).buffers@.drop_first());
            }
        }
        self.buffers.push(text);
    }

    /// The most recent entry.
    pub fn top(&self) -> (r: Option<&String>)
        ensures
            match r {
                Some(s) => self.buffers@.len() > 0 && *s == self.buffers@.last(),
                None => self.buffers@.len() == 0,
            },
    {
        if self.buffers.len() > 0 {
            Some(&self.buffers[self.buffers.len() - 1])
        } else {
            None
        }
    }

    /// The entry `index` steps below the top.
    pub fn get(&self, index: usize) -> (r: Option<&String>)
        ensures
            match r {
                Some(s) => index < self.buffers@.len() && *s == self.buffers@[self.buffers@.len()
                    - 1 - index],
                None => index >= self.buffers@.len(),
            },
    {
        if index < self.buffers.len() {
            Some(&self.buffers[self.buffers.len() - 1 - index])
        } else {
            None
        }
    }

    /// Number of stored entries.
    pub fn len(&self) -> (r: usize)
        ensures
            r == self.buffers@.len(),
    {
        self.buffers.len()
    }

    /// Whether the stack is empty.
    pub fn is_empty(&self) -> (r: bool)
        ensures
            r == (self.buffers@.len() == 0),
    {
        self.buffers.len() == 0
    }
}

} // verus!
