//! A session: an ordered list of windows with an active one, resized as a
//! whole when the client's terminal changes.

use vstd::prelude::*;

use crate::chars::{chars_of_str, string_from_chars};
use crate::geometry::Rect;
use crate::window::{PaneState, Window};
use crate::{PaneId, SessionId, WindowId, WtmuxError};

verus! {

/// A session owning its windows in order.
pub struct Session {
    pub id: SessionId,
    pub name: String,
    pub windows: Vec<Window>,
    pub active_window_idx: usize,
    pub last_window_idx: Option<usize>,
    pub created_at: u64,
    pub next_window_index: usize,
}

impl Session {
    /// Invariant: at least one window, the active index in range, every
    /// window well-formed.
    pub open spec fn inv(&self) -> bool {
        &&& self.windows@.len() >= 1
        &&& self.active_window_idx < self.windows@.len()
        &&& forall|i: int| 0 <= i < self.windows@.len() ==> (#[trigger] self.windows@[i]).inv()
    }

    /// A new session with one window running `command`, sized for a
    /// `cols x rows` client with one row reserved for the status bar.
    pub fn new(name: &str, command: &str, cols: u16, rows: u16, created_at: u64) -> (r: Session)
        ensures
            r.inv(),
            r.windows@.len() == 1,
            r.next_window_index == 1,
    {
        let area = client_area(cols, rows);
        let pane = PaneState::new(command, area.width, area.height);
        let window = Window::new("cmd", 0, pane, area);
        let mut windows: Vec<Window> = Vec::new();
        windows.push(window);
        Session {
            id: SessionId::new(),
            name: string_from_chars(&chars_of_str(name)),
            windows,
            active_window_idx: 0,
            last_window_idx: None,
            created_at,
            next_window_index: 1,
        }
    }

    /// The active window.
    pub fn active_window(&self) -> (r: &Window)
        requires
            self.inv(),
        ensures
            *r == self.windows@[self.active_window_idx as int],
    {
        &self.windows[self.active_window_idx]
    }

    /// The active window, mutably.
    pub fn active_window_mut(&mut self) -> (r: &mut Window)
        requires
            old(self).inv(),
        ensures
            *r == old(self).windows@[old(self).active_window_idx as int],
            final(self).windows@ =~= old(self).windows@.update(
                old(self).active_window_idx as int,
                *final(r),
            ),
            final(self).active_window_idx == old(self).active_window_idx,
            final(self).name == old(self).name,
            final(self).id == old(self).id,
            final(self).next_window_index == old(self).next_window_index,
            final(self).last_window_idx == old(self).last_window_idx,
            final(self).created_at == old(self).created_at,
    {
        &mut self.windows[self.active_window_idx]
    }

    /// The active window's active pane.
    pub fn active_pane_id(&self) -> (r: PaneId)
        requires
            self.inv(),
        ensures
            r == self.windows@[self.active_window_idx as int].active_pane,
    {
        self.windows[self.active_window_idx].active_pane
    }

    /// Append a new window running `command`, numbered with the session's
    /// next free index, and make it active.
    pub fn new_window(&mut self, name: Option<&str>, command: &str, cols: u16, rows: u16) -> (r:
        Result<WindowId, WtmuxError>)
        requires
            old(self).inv(),
            old(self).next_window_index < usize::MAX,
        ensures
            final(self).inv(),
            r is Ok,
            final(self).windows@.len() == old(self).windows@.len() + 1,
            final(self).windows@.subrange(0, old(self).windows@.len() as int) == old(
                self,
            ).windows@,
            final(self).windows@.last().index == old(self).next_window_index,
            final(self).windows@.last().panes@.len() == 1,
            final(self).next_window_index == old(self).next_window_index + 1,
            final(self).active_window_idx == old(self).windows@.len() as int,
            final(self).last_window_idx == Some(old(self).active_window_idx),
    {
        let area = client_area(cols, rows);
        let pane = PaneState::new(command, area.width, area.height);
        let idx = self.next_window_index;
        self.next_window_index = self.next_window_index + 1;
        let win_name: &str = match name {
            Some(n) => n,
            None => "cmd",
        };
        let window = Window::new(win_name, idx, pane, area);
        let win_id = window.id;
        self.windows.push(window);
        proof {
            assert(self.windows@.subrange(0, old(self).windows@.len() as int) =~= old(
                self,
            ).windows@);
        }
        self.last_window_idx = Some(self.active_window_idx);
        self.active_window_idx = self.windows.len() - 1;
        Ok(win_id)
    }

    /// Select the window whose external index is `index`: reports whether
    /// one exists, and on a hit the first such window becomes active with
    /// the previous one recorded when it differs.
    #[verifier::loop_isolation(false)]
    pub fn select_window(&mut self, index: usize) -> (r: bool)
        requires
            old(self).inv(),
        ensures
            final(self).inv(),
            final(self).windows@ == old(self).windows@,
            r == exists|k: int|
                0 <= k < old(self).windows@.len() && (#[trigger] old(self).windows@[k]).index
                    == index,
            r ==> final(self).windows@[final(self).active_window_idx as int].index == index
                && (forall|k: int|
                0 <= k < final(self).active_window_idx ==> (#[trigger] old(self).windows@[k]).index
                    != index),
            !r ==> *final(self) == *old(self),
    {
        let n = self.windows.len();
        let mut i: usize = 0;
        while i < n
            invariant
                self.inv(),
                *self == *old(self),
                n == self.windows@.len(),
                i <= n,
                forall|k: int| 0 <= k < i ==> (#[trigger] self.windows@[k]).index != index,
            decreases n - i,
        {
            if self.windows[i].index == index {
                if i != self.active_window_idx {
                    self.last_window_idx = Some(self.active_window_idx);
                }
                self.active_window_idx = i;
                return true;
            }
            i += 1;
        }
        false
    }

    /// Cycle to the next window by position, wrapping at the end.
    pub fn next_window(&mut self)
        requires
            old(self).inv(),
        ensures
            final(self).inv(),
            final(self).windows@ == old(self).windows@,
            final(self).active_window_idx as int == if old(self).active_window_idx + 1 < old(
                self,
            ).windows@.len() {
                old(self).active_window_idx + 1
            } else {
                0int
            },
            final(self).last_window_idx == Some(old(self).active_window_idx),
    {
        self.last_window_idx = Some(self.active_window_idx);
        self.active_window_idx = if self.active_window_idx < self.windows.len() - 1 {
            self.active_window_idx + 1
        } else {
            0
        };
    }

    /// Cycle to the previous window by position, wrapping at the start.
    pub fn prev_window(&mut self)
        requires
            old(self).inv(),
        ensures
            final(self).inv(),
            final(self).windows@ == old(self).windows@,
            final(self).active_window_idx as int == if old(self).active_window_idx == 0 {
                old(self).windows@.len() - 1
            } else {
                old(self).active_window_idx - 1
            },
            final(self).last_window_idx == Some(old(self).active_window_idx),
    {
        self.last_window_idx = Some(self.active_window_idx);
        self.active_window_idx = if self.active_window_idx == 0 {
            self.windows.len() - 1
        } else {
            self.active_window_idx - 1
        };
    }

    /// Swap back to the previously active window; reports whether a valid
    /// one was recorded, and on a hit the active and last indexes swap.
    pub fn select_last_window(&mut self) -> (r: bool)
        requires
            old(self).inv(),
        ensures
            final(self).inv(),
            final(self).windows@ == old(self).windows@,
            r == (match old(self).last_window_idx {
                Some(l) => (l as int) < old(self).windows@.len(),
                None => false,
            }),
            r ==> final(self).active_window_idx as int == old(self).last_window_idx->0 as int
                && final(self).last_window_idx == Some(old(self).active_window_idx),
            !r ==> *final(self) == *old(self),
    {
        match self.last_window_idx {
            Some(last) => {
                if last < self.windows.len() {
                    let old_idx = self.active_window_idx;
                    self.active_window_idx = last;
                    self.last_window_idx = Some(old_idx);
                    true
                } else {
                    false
                }
            },
            None => false,
        }
    }

    /// Close the first window with the given id, if any: it leaves the
    /// list, the active index snaps back into range, and the last-window
    /// memory is cleared. Returns whether the session is now empty; an
    /// emptied session is discarded by the server, so its invariant no
    /// longer binds.
    #[verifier::loop_isolation(false)]
    pub fn close_window(&mut self, window_id: WindowId) -> (r: bool)
        requires
            old(self).inv(),
        ensures
            r == (final(self).windows@.len() == 0),
            !r ==> final(self).inv(),
            !(exists|k: int|
                0 <= k < old(self).windows@.len() && (#[trigger] old(self).windows@[k]).id
                    == window_id) ==> *final(self) == *old(self),
            (exists|k: int|
                0 <= k < old(self).windows@.len() && (#[trigger] old(self).windows@[k]).id
                    == window_id) ==> exists|k: int|
                0 <= k < old(self).windows@.len() && (#[trigger] old(self).windows@[k]).id
                    == window_id && final(self).windows@ == old(self).windows@.remove(k),
            !r && (exists|k: int|
                0 <= k < old(self).windows@.len() && (#[trigger] old(self).windows@[k]).id
                    == window_id) ==> final(self).active_window_idx as int == (if old(
                self,
            ).active_window_idx >= final(self).windows@.len() {
                final(self).windows@.len() - 1
            } else {
                old(self).active_window_idx as int
            }) && final(self).last_window_idx is None,
    {
        let n = self.windows.len();
        let mut i: usize = 0;
        let mut found: bool = false;
        let mut pos: usize = 0;
        while i < n
            invariant
                self.inv(),
                *self == *old(self),
                n == self.windows@.len(),
                i <= n,
                found ==> pos < n && self.windows@[pos as int].id == window_id,
                !found ==> forall|k: int|
                    0 <= k < i ==> (#[trigger] self.windows@[k]).id != window_id,
            decreases n - i,
        {
            if !found && self.windows[i].id == window_id {
                found = true;
                pos = i;
            }
            i += 1;
        }
        if found {
            self.windows.remove(pos);
            if self.windows.len() == 0 {
                return true;
            }
            if self.active_window_idx >= self.windows.len() {
                self.active_window_idx = self.windows.len() - 1;
            }
            self.last_window_idx = None;
            proof {
                assert forall|q: int| 0 <= q < self.windows@.len() implies (
                #[trigger] self.windows@[q]).inv() by {
                    if q < pos {
                        assert(self.windows@[q] == old(self).windows@[q]);
                    } else {
                        assert(self.windows@[q] == old(self).windows@[q + 1]);
                    }
                }
            }
            false
        } else {
            false
        }
    }

    /// Resize every window for a `cols x rows` client, keeping one row
    /// for the status bar: each window's area becomes the client area.
    #[verifier::loop_isolation(false)]
    pub fn resize(&mut self, cols: u16, rows: u16)
        requires
            old(self).inv(),
        ensures
            final(self).inv(),
            final(self).windows@.len() == old(self).windows@.len(),
            forall|k: int|
                0 <= k < final(self).windows@.len() ==> (#[trigger] final(self).windows@[k]).area
                    == client_area_spec(cols, rows),
    {
        let area = client_area(cols, rows);
        let n = self.windows.len();
        let mut i: usize = 0;
        while i < n
            invariant
                n == self.windows@.len(),
                i <= n,
                self.inv(),
                area == client_area_spec(cols, rows),
                area.in_bounds(),
                forall|k: int|
                    0 <= k < i ==> (#[trigger] self.windows@[k]).area == client_area_spec(
                        cols,
                        rows,
                    ),
            decreases n - i,
        {
            let ghost pre = self.windows@;
            let w = &mut self.windows[i];
            w.resize(area);
            proof {
                assert(self.windows@ == pre.update(i as int, self.windows@[i as int]));
                assert forall|q: int| 0 <= q < self.windows@.len() implies (
                #[trigger] self.windows@[q]).inv() by {
                    if q != i {
                        assert(self.windows@[q] == pre[q]);
                    }
                }
            }
            i += 1;
        }
    }

    /// Total pane count over all windows, saturating at the machine
    /// limit.
    #[verifier::loop_isolation(false)]
    pub fn pane_count(&self) -> (r: usize)
        requires
            self.inv(),
        ensures
            r as int == if sum_pane_counts(self.windows@) <= usize::MAX {
                sum_pane_counts(self.windows@)
            } else {
                usize::MAX as int
            },
    {
        let n = self.windows.len();
        let mut total: usize = 0;
        let mut i: usize = 0;
        while i < n
            invariant
                self.inv(),
                n == self.windows@.len(),
                i <= n,
                total as int == if sum_pane_counts(self.windows@.subrange(0, i as int))
                    <= usize::MAX {
                    sum_pane_counts(self.windows@.subrange(0, i as int))
                } else {
                    usize::MAX as int
                },
            decreases n - i,
        {
            proof {
                let pre = self.windows@.subrange(0, i + 1 as int);
                assert(pre.drop_last() =~= self.windows@.subrange(0, i as int));
                assert(pre.last() == self.windows@[i as int]);
            }
            let c = self.windows[i].pane_count();
            if total <= usize::MAX - c {
                total = total + c;
            } else {
                total = usize::MAX;
            }
            i += 1;
        }
        proof {
            assert(self.windows@.subrange(0, n as int) =~= self.windows@);
        }
        total
    }
}

/// The sum of the windows' pane counts.
pub open spec fn sum_pane_counts(ws: Seq<Window>) -> int
    decreases ws.len(),
{
    if ws.len() == 0 {
        0
    } else {
        sum_pane_counts(ws.drop_last()) + ws.last().panes@.len()
    }
}

/// The drawing area for a `cols x rows` client: the full width, one row
/// reserved for the status bar, and at least one cell each way.
pub open spec fn client_area_spec(cols: u16, rows: u16) -> Rect {
    Rect {
        x: 0,
        y: 0,
        width: if cols >= 1 {
            cols
        } else {
            1u16
        },
        height: if rows >= 2 {
            (rows - 1) as u16
        } else {
            1u16
        },
    }
}

pub fn client_area(cols: u16, rows: u16) -> (r: Rect)
    ensures
        r == client_area_spec(cols, rows),
        r.in_bounds(),
        r.x == 0,
        r.y == 0,
        r.width >= 1,
        r.height >= 1,
{
    let w = if cols >= 1 {
        cols
    } else {
        1
    };
    let h = if rows >= 2 {
        rows - 1
    } else {
        1
    };
    Rect { x: 0, y: 0, width: w, height: h }
}

} // verus!
